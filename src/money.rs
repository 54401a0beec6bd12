//! Non-negative decimal quantities of money.
//!
//! A [`Money`] is a mantissa and a scale, worth `mantissa / 10^scale`, with the
//! range of a 96-bit decimal. Sums and differences are exact: one that no
//! decimal can hold exactly, at a scale up to the larger of the two operands',
//! is reported as an overflow instead of being rounded.

use core::cmp::Ordering;
use vstd::arithmetic::div_mod::lemma_fundamental_div_mod;
use vstd::arithmetic::div_mod::lemma_mod_multiples_basic;
use vstd::arithmetic::div_mod::lemma_mod_multiples_vanish;
use vstd::prelude::*;

verus! {

/// The largest mantissa a decimal can carry: `2^96 - 1`.
pub const MAX_MANTISSA: u128 = 79_228_162_514_264_337_593_543_950_335;

/// The largest number of fractional digits a decimal can carry.
pub const MAX_SCALE: u32 = 28;

/// `10^n`.
pub open spec fn pow10(n: nat) -> nat
    decreases n,
{
    if n == 0 {
        1
    } else {
        10 * pow10((n - 1) as nat)
    }
}

/// A mantissa given at scale `from`, restated at the larger scale `to`.
pub open spec fn aligned(mantissa: int, from: int, to: int) -> int {
    mantissa * pow10((to - from) as nat)
}

/// The larger of two scales.
pub open spec fn max_scale(a: int, b: int) -> int {
    if a >= b {
        a
    } else {
        b
    }
}

/// Whether `v`, a count of `10^-28` units, is a whole number of `10^-scale`.
pub open spec fn whole_at(v: int, scale: int) -> bool {
    v % (pow10((MAX_SCALE - scale) as nat) as int) == 0
}

/// Whether a decimal can hold the non-negative `v`, a count of `10^-28` units,
/// exactly at some scale no larger than `scale`: `v` is a whole number of
/// `10^-s` for such an `s`, with a mantissa at `s` that fits in 96 bits.
pub open spec fn representable(v: int, scale: int) -> bool {
    exists|s: int|
        0 <= s <= scale && #[trigger] whole_at(v, s) && 0 <= v <= MAX_MANTISSA * pow10(
            (MAX_SCALE - s) as nat,
        )
}

/// `10^n` is at least one.
pub proof fn lemma_pow10_positive(n: nat)
    ensures
        pow10(n) >= 1,
    decreases n,
{
    if n > 0 {
        lemma_pow10_positive((n - 1) as nat);
    }
}

/// `10^(a + b) == 10^a * 10^b`.
pub proof fn lemma_pow10_add(a: nat, b: nat)
    ensures
        pow10(a + b) == pow10(a) * pow10(b),
    decreases a,
{
    if a == 0 {
        assert(pow10(a) == 1);
        assert((a + b) as nat == b);
    } else {
        lemma_pow10_add((a - 1) as nat, b);
        assert(pow10(a) == 10 * pow10((a - 1) as nat));
        assert(pow10((a + b) as nat) == 10 * pow10((a - 1 + b) as nat));
        assert(10 * (pow10((a - 1) as nat) * pow10(b)) == (10 * pow10((a - 1) as nat)) * pow10(b))
            by (nonlinear_arith);
    }
}

/// `10^n` grows with `n`.
pub proof fn lemma_pow10_monotonic(a: nat, b: nat)
    requires
        a <= b,
    ensures
        pow10(a) <= pow10(b),
{
    lemma_pow10_add(a, (b - a) as nat);
    lemma_pow10_positive((b - a) as nat);
    lemma_pow10_positive(a);
    assert(pow10(a) * pow10((b - a) as nat) >= pow10(a) * 1) by (nonlinear_arith)
        requires
            pow10((b - a) as nat) >= 1,
            pow10(a) >= 1,
    ;
}

/// A whole number of `10^-small` is a whole number of `10^-large`, for any
/// larger scale.
pub proof fn lemma_whole_at_larger_scale(v: int, small: int, large: int)
    requires
        0 <= small <= large <= MAX_SCALE,
        whole_at(v, small),
    ensures
        whole_at(v, large),
{
    let p = pow10((MAX_SCALE - large) as nat) as int;
    let q = pow10((large - small) as nat) as int;
    lemma_pow10_add((MAX_SCALE - large) as nat, (large - small) as nat);
    assert(((MAX_SCALE - large) + (large - small)) as nat == (MAX_SCALE - small) as nat);
    lemma_pow10_positive((MAX_SCALE - large) as nat);
    lemma_pow10_positive((MAX_SCALE - small) as nat);
    let d = pow10((MAX_SCALE - small) as nat) as int;
    lemma_fundamental_div_mod(v, d);
    let k = v / d;
    assert(v == (k * q) * p) by (nonlinear_arith)
        requires
            v == d * k + 0,
            d == p * q,
    ;
    lemma_mod_multiples_basic(k * q, p);
}

/// Sums and differences of whole numbers of `10^-scale` are whole numbers of it.
pub proof fn lemma_whole_at_sum(v: int, w: int, scale: int)
    requires
        0 <= scale <= MAX_SCALE,
        whole_at(v, scale),
        whole_at(w, scale),
    ensures
        whole_at(v + w, scale),
        whole_at(v - w, scale),
{
    let d = pow10((MAX_SCALE - scale) as nat) as int;
    lemma_pow10_positive((MAX_SCALE - scale) as nat);
    lemma_fundamental_div_mod(v, d);
    lemma_fundamental_div_mod(w, d);
    let a = v / d;
    let b = w / d;
    assert(v + w == (a + b) * d && v - w == (a - b) * d) by (nonlinear_arith)
        requires
            v == d * a + 0,
            w == d * b + 0,
    ;
    lemma_mod_multiples_basic(a + b, d);
    lemma_mod_multiples_basic(a - b, d);
}

/// A value that a decimal can hold at all, and that is a whole number of
/// `10^-scale`, can be held at a scale no larger than `scale`.
pub proof fn lemma_representable_at(v: int, any: int, scale: int)
    requires
        0 <= scale <= MAX_SCALE,
        any <= MAX_SCALE,
        representable(v, any),
        whole_at(v, scale),
    ensures
        representable(v, scale),
{
    let s = choose|s: int|
        0 <= s <= any && #[trigger] whole_at(v, s) && 0 <= v <= MAX_MANTISSA * pow10(
            (MAX_SCALE - s) as nat,
        );
    if s > scale {
        lemma_pow10_monotonic((MAX_SCALE - s) as nat, (MAX_SCALE - scale) as nat);
        let p = pow10((MAX_SCALE - s) as nat) as int;
        let q = pow10((MAX_SCALE - scale) as nat) as int;
        assert(MAX_MANTISSA * p <= MAX_MANTISSA * q) by (nonlinear_arith)
            requires
                p <= q,
        ;
        assert(whole_at(v, scale));
    }
}

/// `c` at scale `s`, where `c` has no trailing zero digit to drop, can be held by
/// a decimal at some scale up to `scale` exactly when `c` fits in 96 bits.
pub proof fn lemma_representable_without_trailing_zero(c: int, s: int, scale: int)
    requires
        0 <= s <= scale <= MAX_SCALE,
        c >= 0,
        s == 0 || c % 10 != 0,
    ensures
        representable(c * pow10((MAX_SCALE - s) as nat), scale) <==> c <= MAX_MANTISSA,
{
    let p = pow10((MAX_SCALE - s) as nat) as int;
    let v = c * p;
    lemma_pow10_positive((MAX_SCALE - s) as nat);
    if c <= MAX_MANTISSA {
        lemma_mod_multiples_basic(c, p);
        assert(v <= MAX_MANTISSA * p && v >= 0) by (nonlinear_arith)
            requires
                0 <= c <= MAX_MANTISSA,
                p >= 1,
                v == c * p,
        ;
        assert(whole_at(v, s));
    }
    if representable(v, scale) {
        let t = choose|t: int|
            0 <= t <= scale && #[trigger] whole_at(v, t) && 0 <= v <= MAX_MANTISSA * pow10(
                (MAX_SCALE - t) as nat,
            );
        let pt = pow10((MAX_SCALE - t) as nat) as int;
        lemma_pow10_positive((MAX_SCALE - t) as nat);
        if t >= s {
            let q = pow10((t - s) as nat) as int;
            lemma_pow10_add((MAX_SCALE - t) as nat, (t - s) as nat);
            assert(((MAX_SCALE - t) + (t - s)) as nat == (MAX_SCALE - s) as nat);
            lemma_pow10_positive((t - s) as nat);
            assert(c <= MAX_MANTISSA) by (nonlinear_arith)
                requires
                    v == c * p,
                    p == pt * q,
                    v <= MAX_MANTISSA * pt,
                    pt >= 1,
                    q >= 1,
                    c >= 0,
            ;
        } else {
            let q = pow10((s - t - 1) as nat) as int;
            lemma_pow10_add((MAX_SCALE - s) as nat, (s - t) as nat);
            assert(((MAX_SCALE - s) + (s - t)) as nat == (MAX_SCALE - t) as nat);
            assert(pow10((s - t) as nat) == 10 * pow10((s - t - 1) as nat));
            lemma_fundamental_div_mod(v, pt);
            let k = v / pt;
            assert(c == (k * q) * 10) by (nonlinear_arith)
                requires
                    v == pt * k + 0,
                    v == c * p,
                    pt == p * (10 * q),
                    p >= 1,
            ;
            lemma_mod_multiples_basic(k * q, 10);
        }
    }
}

/// `mantissa` at scale `from`, restated at the larger scale `to`, or `None`
/// where that exceeds `u128`.
fn scale_up(mantissa: u128, from: u32, to: u32) -> (r: Option<u128>)
    requires
        from <= to <= MAX_SCALE,
    ensures
        r matches Some(x) ==> x == aligned(mantissa as int, from as int, to as int),
        r is None ==> aligned(mantissa as int, from as int, to as int) > u128::MAX,
{
    let mut acc: u128 = mantissa;
    let mut s: u32 = from;
    assert(pow10(0) == 1);
    assert(((s as int) - from) as nat == 0);
    assert(aligned(mantissa as int, from as int, s as int) == mantissa);
    while s < to
        invariant
            from <= s <= to,
            acc == aligned(mantissa as int, from as int, s as int),
        decreases to - s,
    {
        let ghost m = mantissa as int;
        let ghost d = (s - from) as nat;
        proof {
            assert(pow10(d + 1) == 10 * pow10(d));
            assert(m * (10 * pow10(d)) == (m * pow10(d)) * 10) by (nonlinear_arith);
        }
        match acc.checked_mul(10) {
            Some(next) => {
                acc = next;
                s = s + 1;
            },
            None => {
                proof {
                    let rest = (to - s - 1) as nat;
                    lemma_pow10_add(d + 1, rest);
                    lemma_pow10_positive(rest);
                    assert((d + 1 + rest) as nat == (to - from) as nat);
                    let big = m * pow10(d + 1);
                    assert(big > u128::MAX);
                    assert(m * (pow10(d + 1) * pow10(rest)) == big * pow10(rest))
                        by (nonlinear_arith)
                        requires
                            big == m * pow10(d + 1),
                    ;
                    assert(big * pow10(rest) >= big) by (nonlinear_arith)
                        requires
                            big >= 0,
                            pow10(rest) >= 1,
                    ;
                }
                return None;
            },
        }
    }
    Some(acc)
}

/// `mantissa` at `scale` with its trailing zero digits dropped, as long as the
/// scale allows: the same value, at the smallest scale that holds it.
fn without_trailing_zeros(mantissa: u128, scale: u32) -> (r: (u128, u32))
    requires
        scale <= MAX_SCALE,
    ensures
        r.1 <= scale,
        r.0 <= mantissa,
        r.1 == 0 || r.0 % 10 != 0,
        r.0 * pow10((MAX_SCALE - r.1) as nat) == mantissa * pow10((MAX_SCALE - scale) as nat),
{
    let mut m: u128 = mantissa;
    let mut s: u32 = scale;
    while s > 0 && m % 10 == 0
        invariant
            s <= scale <= MAX_SCALE,
            m <= mantissa,
            m * pow10((MAX_SCALE - s) as nat) == mantissa * pow10((MAX_SCALE - scale) as nat),
        decreases s,
    {
        let ghost n = (MAX_SCALE - s) as nat;
        proof {
            assert(pow10(n + 1) == 10 * pow10(n));
            assert(((MAX_SCALE - (s - 1)) as nat) == n + 1);
            assert((m / 10) * (10 * pow10(n)) == m * pow10(n)) by (nonlinear_arith)
                requires
                    m % 10 == 0,
            ;
        }
        m = m / 10;
        s = s - 1;
    }
    (m, s)
}

/// A non-negative decimal number: `mantissa / 10^scale`.
#[derive(Clone, Copy, Debug)]
pub struct Money {
    mantissa: u128,
    scale: u32,
}

impl Money {
    #[verifier::type_invariant]
    spec fn in_range(self) -> bool {
        self.mantissa <= MAX_MANTISSA && self.scale <= MAX_SCALE
    }

    /// The mantissa.
    pub closed spec fn spec_mantissa(self) -> int {
        self.mantissa as int
    }

    /// The number of fractional digits.
    pub closed spec fn spec_scale(self) -> int {
        self.scale as int
    }

    /// The mantissa and the scale lie in a decimal's range.
    pub open spec fn wf(self) -> bool {
        &&& 0 <= self.spec_mantissa() <= MAX_MANTISSA
        &&& 0 <= self.spec_scale() <= MAX_SCALE
    }

    /// The exact value, counted in units of `10^-28`.
    pub open spec fn value(self) -> int {
        aligned(self.spec_mantissa(), self.spec_scale(), MAX_SCALE as int)
    }

    /// Whether a decimal can hold `self + other` exactly, at a scale no larger
    /// than the larger of the two.
    pub open spec fn sum_fits(self, other: Money) -> bool {
        representable(self.value() + other.value(), max_scale(self.spec_scale(), other.spec_scale()))
    }

    /// Whether a decimal can hold `self - other` exactly, at a scale no larger
    /// than the larger of the two.
    pub open spec fn difference_fits(self, other: Money) -> bool {
        representable(self.value() - other.value(), max_scale(self.spec_scale(), other.spec_scale()))
    }

    /// Every value is non-negative.
    pub proof fn lemma_value_non_negative(self)
        ensures
            self.value() >= 0,
    {
        let m = self.spec_mantissa();
        let p = pow10((MAX_SCALE - self.spec_scale()) as nat);
        assert(m * p >= 0) by (nonlinear_arith)
            requires
                m >= 0,
                p >= 0,
        ;
    }

    /// A well-formed value is a whole number of `10^-scale` units: its mantissa
    /// restated at any scale `to` between its own and the largest, times `10^(28 - to)`.
    pub proof fn lemma_value_at(self, to: int)
        requires
            self.wf(),
            self.spec_scale() <= to <= MAX_SCALE,
        ensures
            self.value() == aligned(self.spec_mantissa(), self.spec_scale(), to) * pow10(
                (MAX_SCALE - to) as nat,
            ),
            self.value() >= 0,
    {
        let a = (to - self.spec_scale()) as nat;
        let b = (MAX_SCALE - to) as nat;
        lemma_pow10_add(a, b);
        assert((a + b) as nat == (MAX_SCALE - self.spec_scale()) as nat);
        let m = self.spec_mantissa();
        assert(m * (pow10(a) * pow10(b)) == (m * pow10(a)) * pow10(b)) by (nonlinear_arith);
        assert(m * pow10((MAX_SCALE - self.spec_scale()) as nat) >= 0) by (nonlinear_arith)
            requires
                m >= 0,
        ;
    }

    /// Zero.
    pub fn zero() -> (r: Money)
        ensures
            r.wf(),
            r.value() == 0,
            r.spec_scale() == 0,
    {
        Money { mantissa: 0, scale: 0 }
    }

    /// The decimal with the given sign, mantissa and scale, if it is non-negative
    /// and within a decimal's range. A negative zero is refused too.
    pub fn from_parts(negative: bool, mantissa: u128, scale: u32) -> (r: Option<Money>)
        ensures
            r is Some <==> !negative && mantissa <= MAX_MANTISSA && scale <= MAX_SCALE,
            r matches Some(m) ==> m.wf() && m.spec_mantissa() == mantissa && m.spec_scale()
                == scale,
    {
        if negative || mantissa > MAX_MANTISSA || scale > MAX_SCALE {
            None
        } else {
            Some(Money { mantissa, scale })
        }
    }

    /// The mantissa.
    pub fn mantissa(&self) -> (r: u128)
        ensures
            r == self.spec_mantissa(),
            self.wf(),
    {
        proof {
            use_type_invariant(self);
        }
        self.mantissa
    }

    /// The number of fractional digits.
    pub fn scale(&self) -> (r: u32)
        ensures
            r == self.spec_scale(),
    {
        self.scale
    }
}

/// Restating a mantissa at a larger scale keeps its value.
proof fn lemma_aligned_value(m: int, from: int, to: int)
    requires
        0 <= from <= to <= MAX_SCALE,
    ensures
        aligned(m, from, to) * pow10((MAX_SCALE - to) as nat) == m * pow10(
            (MAX_SCALE - from) as nat,
        ),
        from == to ==> aligned(m, from, to) == m,
        m >= 0 ==> aligned(m, from, to) >= 0,
{
    let a = (to - from) as nat;
    let b = (MAX_SCALE - to) as nat;
    lemma_pow10_add(a, b);
    assert((a + b) as nat == (MAX_SCALE - from) as nat);
    assert(m * (pow10(a) * pow10(b)) == (m * pow10(a)) * pow10(b)) by (nonlinear_arith);
    assert(pow10(0) == 1);
    if from == to {
        assert(aligned(m, from, to) == m * pow10(0));
        assert(m * pow10(0) == m) by (nonlinear_arith)
            requires
                pow10(0) == 1,
        ;
    }
    if m >= 0 {
        assert(m * pow10(a) >= 0) by (nonlinear_arith)
            requires
                m >= 0,
        ;
    }
}

/// A mantissa restated one or more scales up ends in a zero digit.
proof fn lemma_scaled_up_ends_in_zero(m: int, from: int, to: int)
    requires
        0 <= from < to <= MAX_SCALE,
    ensures
        aligned(m, from, to) == 10 * (m * pow10((to - from - 1) as nat)),
{
    let q = pow10((to - from - 1) as nat);
    assert(pow10((to - from) as nat) == 10 * q);
    assert(m * (10 * q) == 10 * (m * q)) by (nonlinear_arith);
}

impl Money {
    /// A well-formed value is a whole number of `10^-t` for every scale `t` from
    /// its own up, and a decimal holds it at its own scale.
    pub proof fn lemma_value_whole(self, t: int)
        requires
            self.wf(),
            self.spec_scale() <= t <= MAX_SCALE,
        ensures
            whole_at(self.value(), t),
            representable(self.value(), self.spec_scale()),
    {
        let s = self.spec_scale();
        let m = self.spec_mantissa();
        let p = pow10((MAX_SCALE - s) as nat) as int;
        lemma_pow10_positive((MAX_SCALE - s) as nat);
        lemma_mod_multiples_basic(m, p);
        assert(whole_at(self.value(), s));
        assert(0 <= m * p <= MAX_MANTISSA * p) by (nonlinear_arith)
            requires
                0 <= m <= MAX_MANTISSA,
                p >= 1,
        ;
        lemma_whole_at_larger_scale(self.value(), s, t);
    }

    /// Whether a decimal can hold `self + other` exactly, at a scale no larger
    /// than the larger of the two.
    fn can_add(&self, other: &Money) -> (r: bool)
        requires
            self.wf(),
            other.wf(),
        ensures
            r == self.sum_fits(*other),
    {
        let (ma, sa) = without_trailing_zeros(self.mantissa, self.scale);
        let (mb, sb) = without_trailing_zeros(other.mantissa, other.scale);
        let to = if sa >= sb {
            sa
        } else {
            sb
        };
        let ghost bound = max_scale(self.spec_scale(), other.spec_scale());
        let ghost p = pow10((MAX_SCALE - to) as nat) as int;
        let ghost x = aligned(ma as int, sa as int, to as int);
        let ghost y = aligned(mb as int, sb as int, to as int);
        proof {
            lemma_aligned_value(ma as int, sa as int, to as int);
            lemma_aligned_value(mb as int, sb as int, to as int);
            assert(x * p + y * p == (x + y) * p) by (nonlinear_arith);
        }
        let sum = match (scale_up(ma, sa, to), scale_up(mb, sb, to)) {
            (Some(xe), Some(ye)) => xe.checked_add(ye),
            _ => None,
        };
        match sum {
            Some(c) => {
                let (c2, s2) = without_trailing_zeros(c, to);
                proof {
                    lemma_representable_without_trailing_zero(c2 as int, s2 as int, bound);
                }
                c2 <= MAX_MANTISSA
            },
            None => {
                proof {
                    if sa < sb {
                        lemma_scaled_up_ends_in_zero(ma as int, sa as int, to as int);
                        lemma_mod_multiples_vanish(ma * pow10((to - sa - 1) as nat), y, 10);
                    } else if sb < sa {
                        lemma_scaled_up_ends_in_zero(mb as int, sb as int, to as int);
                        lemma_mod_multiples_vanish(mb * pow10((to - sb - 1) as nat), x, 10);
                    }
                    lemma_representable_without_trailing_zero(x + y, to as int, bound);
                }
                false
            },
        }
    }

    /// Whether a decimal can hold `self - other`, for `other <= self`, exactly,
    /// at a scale no larger than the larger of the two.
    fn can_subtract(&self, other: &Money) -> (r: bool)
        requires
            self.wf(),
            other.wf(),
            other.value() <= self.value(),
        ensures
            r == self.difference_fits(*other),
    {
        let (ma, sa) = without_trailing_zeros(self.mantissa, self.scale);
        let (mb, sb) = without_trailing_zeros(other.mantissa, other.scale);
        let to = if sa >= sb {
            sa
        } else {
            sb
        };
        let ghost bound = max_scale(self.spec_scale(), other.spec_scale());
        let ghost p = pow10((MAX_SCALE - to) as nat) as int;
        let ghost x = aligned(ma as int, sa as int, to as int);
        let ghost y = aligned(mb as int, sb as int, to as int);
        proof {
            lemma_pow10_positive((MAX_SCALE - to) as nat);
            lemma_aligned_value(ma as int, sa as int, to as int);
            lemma_aligned_value(mb as int, sb as int, to as int);
            assert(x * p - y * p == (x - y) * p) by (nonlinear_arith);
            assert(y <= x) by (nonlinear_arith)
                requires
                    y * p <= x * p,
                    p >= 1,
            ;
        }
        let xs = scale_up(ma, sa, to);
        let ys = scale_up(mb, sb, to);
        match (xs, ys) {
            (Some(xe), Some(ye)) => {
                let (c2, s2) = without_trailing_zeros(xe - ye, to);
                proof {
                    lemma_representable_without_trailing_zero(c2 as int, s2 as int, bound);
                }
                c2 <= MAX_MANTISSA
            },
            _ => {
                proof {
                    if xs is None {
                        assert(sa < sb);
                        lemma_scaled_up_ends_in_zero(ma as int, sa as int, to as int);
                        let q = ma * pow10((to - sa - 1) as nat);
                        let c = x - y;
                        if c % 10 == 0 {
                            lemma_fundamental_div_mod(c, 10);
                            assert(y == 10 * (q - c / 10));
                            lemma_mod_multiples_basic(q - c / 10, 10);
                            assert((10 * (q - c / 10)) % 10 == 0) by (nonlinear_arith)
                                requires
                                    ((q - c / 10) * 10) % 10 == 0,
                            ;
                        }
                        lemma_representable_without_trailing_zero(x - y, to as int, bound);
                    }
                }
                false
            },
        }
    }
}

/// Whether a mantissa and scale lie in a decimal's range, are worth exactly `v`
/// units of `10^-28`, and the scale is at most `scale_bound`.
pub open spec fn exact_result(m: i128, s: u32, v: int, scale_bound: int) -> bool {
    &&& -MAX_MANTISSA <= m <= MAX_MANTISSA
    &&& s <= MAX_SCALE
    &&& aligned(m as int, s as int, MAX_SCALE as int) == v
    &&& s <= scale_bound
}

/// Relies on `rust_decimal::Decimal::checked_add`, documented to compute
/// `self + other`: where a decimal can hold the exact sum at a scale no larger
/// than the larger of the two, it comes back exactly, at such a scale.
#[verifier::external_body]
fn decimal_checked_add(a: &Money, b: &Money) -> (r: Option<(i128, u32)>)
    requires
        a.wf(),
        b.wf(),
        a.sum_fits(*b),
    ensures
        r is Some,
        r matches Some((m, s)) ==> exact_result(
            m,
            s,
            a.value() + b.value(),
            max_scale(a.spec_scale(), b.spec_scale()),
        ),
{
    let x = rust_decimal::Decimal::from_i128_with_scale(a.mantissa as i128, a.scale);
    let y = rust_decimal::Decimal::from_i128_with_scale(b.mantissa as i128, b.scale);
    x.checked_add(y).map(|d| (d.mantissa(), d.scale()))
}

/// Relies on `rust_decimal::Decimal::checked_sub`, documented to compute
/// `self - other`: where a decimal can hold the exact difference at a scale no
/// larger than the larger of the two, it comes back exactly, at such a scale.
#[verifier::external_body]
fn decimal_checked_sub(a: &Money, b: &Money) -> (r: Option<(i128, u32)>)
    requires
        a.wf(),
        b.wf(),
        a.difference_fits(*b),
    ensures
        r is Some,
        r matches Some((m, s)) ==> exact_result(
            m,
            s,
            a.value() - b.value(),
            max_scale(a.spec_scale(), b.spec_scale()),
        ),
{
    let x = rust_decimal::Decimal::from_i128_with_scale(a.mantissa as i128, a.scale);
    let y = rust_decimal::Decimal::from_i128_with_scale(b.mantissa as i128, b.scale);
    x.checked_sub(y).map(|d| (d.mantissa(), d.scale()))
}

/// Relies on `Ord for rust_decimal::Decimal`, which orders decimals by their
/// numeric value whatever their scales.
#[verifier::external_body]
fn decimal_cmp(a: &Money, b: &Money) -> (r: Ordering)
    requires
        a.wf(),
        b.wf(),
    ensures
        r == Ordering::Less <==> a.value() < b.value(),
        r == Ordering::Equal <==> a.value() == b.value(),
        r == Ordering::Greater <==> a.value() > b.value(),
{
    let x = rust_decimal::Decimal::from_i128_with_scale(a.mantissa as i128, a.scale);
    let y = rust_decimal::Decimal::from_i128_with_scale(b.mantissa as i128, b.scale);
    x.cmp(&y)
}

/// The decimal with a mantissa and scale that a decimal operation returned,
/// worth `v` units of `10^-28`, for a non-negative `v`.
fn from_result(m: i128, s: u32, Ghost(v): Ghost<int>) -> (r: Money)
    requires
        -MAX_MANTISSA <= m <= MAX_MANTISSA,
        s <= MAX_SCALE,
        aligned(m as int, s as int, MAX_SCALE as int) == v,
        v >= 0,
    ensures
        r.wf(),
        r.value() == v,
        r.spec_scale() == s,
{
    proof {
        let p = pow10((MAX_SCALE - s) as nat);
        lemma_pow10_positive((MAX_SCALE - s) as nat);
        assert(m >= 0) by (nonlinear_arith)
            requires
                m * p >= 0,
                p >= 1,
        ;
    }
    Money { mantissa: m as u128, scale: s }
}

impl Money {
    /// The exact sum, or `None` where no decimal can hold it at a scale up to
    /// the larger of the two.
    pub fn checked_add(&self, other: &Money) -> (r: Option<Money>)
        ensures
            self.wf(),
            other.wf(),
            r is Some <==> self.sum_fits(*other),
            r matches Some(x) ==> x.wf() && x.value() == self.value() + other.value()
                && x.spec_scale() <= max_scale(self.spec_scale(), other.spec_scale()),
    {
        proof {
            use_type_invariant(self);
            use_type_invariant(other);
        }
        if !self.can_add(other) {
            return None;
        }
        let (m, s) = decimal_checked_add(self, other).unwrap();
        Some(from_result(m, s, Ghost(self.value() + other.value())))
    }

    /// The exact difference, for `other <= self`, or `None` where no decimal can
    /// hold it at a scale up to the larger of the two.
    pub fn checked_sub(&self, other: &Money) -> (r: Option<Money>)
        requires
            other.value() <= self.value(),
        ensures
            self.wf(),
            other.wf(),
            r is Some <==> self.difference_fits(*other),
            r matches Some(x) ==> x.wf() && x.value() == self.value() - other.value()
                && x.spec_scale() <= max_scale(self.spec_scale(), other.spec_scale()),
    {
        proof {
            use_type_invariant(self);
            use_type_invariant(other);
        }
        if !self.can_subtract(other) {
            return None;
        }
        let (m, s) = decimal_checked_sub(self, other).unwrap();
        Some(from_result(m, s, Ghost(self.value() - other.value())))
    }

    /// Whether `self` is worth less than `other`.
    pub fn less_than(&self, other: &Money) -> (r: bool)
        ensures
            self.wf(),
            other.wf(),
            r == (self.value() < other.value()),
    {
        proof {
            use_type_invariant(self);
            use_type_invariant(other);
        }
        match decimal_cmp(self, other) {
            Ordering::Less => true,
            _ => false,
        }
    }
}

/// Two decimals are equal when they are worth the same, whatever their scales.
impl PartialEq for Money {
    fn eq(&self, other: &Money) -> (r: bool) {
        proof {
            use_type_invariant(self);
            use_type_invariant(other);
        }
        match decimal_cmp(self, other) {
            Ordering::Equal => true,
            _ => false,
        }
    }
}

impl vstd::std_specs::cmp::PartialEqSpecImpl for Money {
    open spec fn obeys_eq_spec() -> bool {
        true
    }

    open spec fn eq_spec(&self, other: &Money) -> bool {
        self.value() == other.value()
    }
}

} // verus!
