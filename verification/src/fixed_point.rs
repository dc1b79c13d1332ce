//! Signed fixed-point numbers with 80 integer bits and 48 fractional bits.
//!
//! A number is held as its raw representation `bits`, and stands for the
//! rational `bits / 2^48`. Every contract in this crate is stated over these
//! raw integers: the sum of two numbers has the sum of their raw integers, the
//! product of `a` and `b` has `a * b / 2^48`, the quotient has `a * 2^48 / b`.
//!
//! No operation wraps or saturates. An operation whose result does not fit
//! returns `None`.
use vstd::arithmetic::div_mod::*;
use vstd::arithmetic::mul::*;
use vstd::prelude::*;

verus! {

/// Raw representation of the number one, `2^48`.
pub const SCALE: i128 = 0x1_0000_0000_0000;

/// A fixed-point number, `bits / 2^48`.
#[derive(Clone, Copy, Debug, PartialEq, Eq, Structural)]
pub struct I80F48 {
    pub bits: i128,
}

/// Direction in which an inexact product or quotient is rounded.
#[derive(Clone, Copy, Debug, PartialEq, Eq, Structural)]
pub enum Rounding {
    /// Towards negative infinity.
    Down,
    /// Towards positive infinity.
    Up,
}

/// Whether `v` is the raw representation of some number.
pub open spec fn fits(v: int) -> bool {
    i128::MIN <= v <= i128::MAX
}

/// The raw integer `v` if it can be represented.
pub open spec fn narrow(v: int) -> Option<i128> {
    if fits(v) {
        Some(v as i128)
    } else {
        None
    }
}

/// The number with raw representation `v`, if there is one.
pub open spec fn checked(v: int) -> Option<I80F48> {
    if fits(v) {
        Some(I80F48 { bits: v as i128 })
    } else {
        None
    }
}

/// The largest integer that is at most `n / d`, for `d != 0`.
pub open spec fn floor_quotient(n: int, d: int) -> int
    recommends
        d != 0,
{
    if d > 0 {
        n / d
    } else {
        (-n) / (-d)
    }
}

/// The smallest integer that is at least `n / d`, for `d != 0`.
pub open spec fn ceil_quotient(n: int, d: int) -> int
    recommends
        d != 0,
{
    -floor_quotient(-n, d)
}

/// `n / d` rounded towards zero, for `d != 0`.
pub open spec fn trunc_quotient(n: int, d: int) -> int
    recommends
        d != 0,
{
    if (n >= 0) == (d > 0) {
        floor_quotient(n, d)
    } else {
        ceil_quotient(n, d)
    }
}

/// `n / d` rounded in the given direction, for `d != 0`.
pub open spec fn rounded_quotient(n: int, d: int, rounding: Rounding) -> int
    recommends
        d != 0,
{
    match rounding {
        Rounding::Down => floor_quotient(n, d),
        Rounding::Up => ceil_quotient(n, d),
    }
}

/// Raw representation of the product of the numbers `a` and `b`, rounded.
pub open spec fn product(a: int, b: int, rounding: Rounding) -> int {
    rounded_quotient(a * b, SCALE as int, rounding)
}

/// Raw representation of the quotient of the numbers `a` and `b`, rounded,
/// for `b != 0`.
pub open spec fn quotient(a: int, b: int, rounding: Rounding) -> int
    recommends
        b != 0,
{
    rounded_quotient(a * SCALE, b, rounding)
}

/// What [`I80F48::mul_round`] returns: the rounded product, provided that it
/// and the product rounded down both fit.
pub open spec fn spec_mul_round(a: int, b: int, rounding: Rounding) -> Option<I80F48> {
    if fits(product(a, b, Rounding::Down)) {
        checked(product(a, b, rounding))
    } else {
        None
    }
}

/// What [`I80F48::div_round`] returns: the rounded quotient, provided that
/// the divisor is not zero and that the rounded quotient and the quotient
/// rounded towards zero both fit.
pub open spec fn spec_div_round(a: int, b: int, rounding: Rounding) -> Option<I80F48> {
    if b == 0 || !fits(trunc_quotient(a * SCALE, b)) {
        None
    } else {
        checked(quotient(a, b, rounding))
    }
}

/// The sum of two results, where both exist and the sum fits.
pub open spec fn opt_add(a: Option<I80F48>, b: Option<I80F48>) -> Option<I80F48> {
    match (a, b) {
        (Some(x), Some(y)) => x.spec_add(y),
        _ => None,
    }
}

/// The difference of two results, where both exist and the difference fits.
pub open spec fn opt_sub(a: Option<I80F48>, b: Option<I80F48>) -> Option<I80F48> {
    match (a, b) {
        (Some(x), Some(y)) => x.spec_sub(y),
        _ => None,
    }
}

/// The rounded product of two results, where both exist and the product fits.
pub open spec fn opt_mul(a: Option<I80F48>, b: Option<I80F48>, rounding: Rounding) -> Option<
    I80F48,
> {
    match (a, b) {
        (Some(x), Some(y)) => x.spec_mul(y, rounding),
        _ => None,
    }
}

/// The rounded quotient of two results, where both exist, the divisor is not
/// zero and the quotient fits.
pub open spec fn opt_div(a: Option<I80F48>, b: Option<I80F48>, rounding: Rounding) -> Option<
    I80F48,
> {
    match (a, b) {
        (Some(x), Some(y)) => x.spec_div(y, rounding),
        _ => None,
    }
}

/// For a positive divisor, rounding up adds one to rounding down exactly when
/// the division leaves a remainder.
pub proof fn lemma_ceil_is_floor_plus_remainder(n: int, d: int)
    requires
        d > 0,
    ensures
        ceil_quotient(n, d) == n / d + (if n % d == 0 {
            0int
        } else {
            1int
        }),
        floor_quotient(n, d) == n / d,
{
    let q = n / d;
    let r = n % d;
    lemma_fundamental_div_mod(n, d);
    lemma_mod_bound(n, d);
    assert(n == q * d + r) by {
        lemma_mul_is_commutative(d, q);
    }
    if r == 0 {
        assert(-n == (-q) * d + 0) by {
            lemma_mul_unary_negation(q, d);
        }
        lemma_fundamental_div_mod_converse(-n, d, -q, 0);
    } else {
        assert(-n == (-q - 1) * d + (d - r)) by {
            lemma_mul_is_distributive_sub_other_way(d, -q, 1);
            lemma_mul_unary_negation(q, d);
        }
        lemma_fundamental_div_mod_converse(-n, d, -q - 1, d - r);
    }
}

/// A quotient rounded down, multiplied back, does not exceed the numerator;
/// rounded up, it does not fall below it.
pub proof fn lemma_quotient_bounds(n: int, d: int)
    requires
        d > 0,
    ensures
        floor_quotient(n, d) * d <= n,
        n < (floor_quotient(n, d) + 1) * d,
        n <= ceil_quotient(n, d) * d,
        (ceil_quotient(n, d) - 1) * d < n,
        floor_quotient(n, d) <= ceil_quotient(n, d) <= floor_quotient(n, d) + 1,
{
    let q = n / d;
    let r = n % d;
    lemma_ceil_is_floor_plus_remainder(n, d);
    lemma_fundamental_div_mod(n, d);
    lemma_mod_bound(n, d);
    assert(n == q * d + r) by {
        lemma_mul_is_commutative(d, q);
    }
    assert((q + 1) * d == q * d + d) by {
        lemma_mul_is_distributive_add_other_way(d, q, 1);
    }
    assert((q - 1) * d == q * d - d) by {
        lemma_mul_is_distributive_sub_other_way(d, q, 1);
    }
}

/// An integer is at most a quotient rounded down exactly when its multiple is
/// at most the numerator.
pub proof fn lemma_floor_quotient_is_greatest(n: int, d: int, k: int)
    requires
        d > 0,
    ensures
        k <= floor_quotient(n, d) <==> k * d <= n,
        k >= ceil_quotient(n, d) <==> k * d >= n,
{
    lemma_quotient_bounds(n, d);
    let f = floor_quotient(n, d);
    let c = ceil_quotient(n, d);
    if k <= f {
        lemma_mul_inequality(k, f, d);
    } else {
        lemma_mul_inequality(f + 1, k, d);
    }
    if k >= c {
        lemma_mul_inequality(c, k, d);
    } else {
        lemma_mul_inequality(k, c - 1, d);
    }
}

/// Rounded quotients grow with the numerator.
pub proof fn lemma_rounded_quotient_monotonic(n1: int, n2: int, d: int, rounding: Rounding)
    requires
        d > 0,
        n1 <= n2,
    ensures
        rounded_quotient(n1, d, rounding) <= rounded_quotient(n2, d, rounding),
{
    lemma_quotient_bounds(n1, d);
    lemma_quotient_bounds(n2, d);
    lemma_floor_quotient_is_greatest(n2, d, floor_quotient(n1, d));
    lemma_floor_quotient_is_greatest(n1, d, ceil_quotient(n2, d));
}

/// A multiple of the divisor divides without remainder in either direction.
pub proof fn lemma_rounded_quotient_of_multiple(k: int, d: int, rounding: Rounding)
    requires
        d > 0,
    ensures
        rounded_quotient(k * d, d, rounding) == k,
{
    lemma_fundamental_div_mod_converse(k * d, d, k, 0);
    lemma_ceil_is_floor_plus_remainder(k * d, d);
}

/// `I80F48::checked_mul` of the `fixed` crate, on raw representations: the
/// exact product of the two raw integers divided by `2^48` and rounded down,
/// or `None` where that does not fit in 128 bits.
#[verifier::external_body]
fn raw_checked_mul(a: i128, b: i128) -> (r: Option<i128>)
    ensures
        r == narrow(floor_quotient(a * b, SCALE as int)),
{
    let x = fixed::types::I80F48::from_bits(a);
    let y = fixed::types::I80F48::from_bits(b);
    match x.checked_mul(y) {
        Some(p) => Some(p.to_bits()),
        None => None,
    }
}

/// `I80F48::checked_div` of the `fixed` crate, on raw representations:
/// `None` for a zero divisor; otherwise the dividend's raw integer times
/// `2^48`, divided by the divisor's raw integer and rounded towards zero, or
/// `None` where that does not fit in 128 bits.
#[verifier::external_body]
fn raw_checked_div(a: i128, b: i128) -> (r: Option<i128>)
    ensures
        r == (if b == 0 {
            None
        } else {
            narrow(trunc_quotient(a * SCALE, b as int))
        }),
{
    let x = fixed::types::I80F48::from_bits(a);
    let y = fixed::types::I80F48::from_bits(b);
    match x.checked_div(y) {
        Some(q) => Some(q.to_bits()),
        None => None,
    }
}

/// Whether the exact product of two raw integers is a multiple of `2^48`.
fn product_is_whole(a: i128, b: i128) -> (r: bool)
    ensures
        r == ((a * b) % (SCALE as int) == 0),
{
    let ra: i128 = match a.checked_rem_euclid(SCALE) {
        Some(v) => v,
        None => 0,
    };
    let rb: i128 = match b.checked_rem_euclid(SCALE) {
        Some(v) => v,
        None => 0,
    };
    proof {
        lemma_mod_bound(a as int, SCALE as int);
        lemma_mod_bound(b as int, SCALE as int);
        lemma_mul_mod_noop_general(a as int, b as int, SCALE as int);
        assert(0 <= ra * rb <= 0x1_0000_0000_0000 * 0x1_0000_0000_0000) by (nonlinear_arith)
            requires
                0 <= ra < 0x1_0000_0000_0000,
                0 <= rb < 0x1_0000_0000_0000,
        ;
    }
    let p: i128 = ra * rb;
    p % SCALE == 0
}

impl I80F48 {
    /// The sum, where it fits.
    pub open spec fn spec_add(self, rhs: I80F48) -> Option<I80F48> {
        checked(self.bits + rhs.bits)
    }

    /// The difference, where it fits.
    pub open spec fn spec_sub(self, rhs: I80F48) -> Option<I80F48> {
        checked(self.bits - rhs.bits)
    }

    /// The rounded product, as [`I80F48::mul_round`] returns it.
    pub open spec fn spec_mul(self, rhs: I80F48, rounding: Rounding) -> Option<I80F48> {
        spec_mul_round(self.bits as int, rhs.bits as int, rounding)
    }

    /// The rounded quotient, as [`I80F48::div_round`] returns it.
    pub open spec fn spec_div(self, rhs: I80F48, rounding: Rounding) -> Option<I80F48> {
        spec_div_round(self.bits as int, rhs.bits as int, rounding)
    }

    /// The whole number `value`.
    pub open spec fn spec_from_num(value: u64) -> I80F48 {
        I80F48 { bits: (value * SCALE) as i128 }
    }

    /// The whole number of units in a non-negative number, rounded, where it
    /// fits in 64 bits.
    pub open spec fn spec_to_u64(self, rounding: Rounding) -> Option<u64> {
        let whole = rounded_quotient(self.bits as int, SCALE as int, rounding);
        if 0 <= whole <= u64::MAX {
            Some(whole as u64)
        } else {
            None
        }
    }

    /// The number zero.
    pub fn zero() -> (r: I80F48)
        ensures
            r.bits == 0,
    {
        I80F48 { bits: 0 }
    }

    /// The number one.
    pub fn one() -> (r: I80F48)
        ensures
            r.bits == SCALE,
    {
        I80F48 { bits: SCALE }
    }

    /// The number with the given raw representation.
    pub fn from_bits(bits: i128) -> (r: I80F48)
        ensures
            r.bits == bits,
    {
        I80F48 { bits }
    }

    /// The raw representation.
    pub fn to_bits(self) -> (r: i128)
        ensures
            r == self.bits,
    {
        self.bits
    }

    /// The whole number `value`. Every `u64` can be represented.
    pub fn from_num(value: u64) -> (r: I80F48)
        ensures
            r.bits == value * SCALE,
    {
        let wide: i128 = value as i128;
        assert(0 <= wide * 0x1_0000_0000_0000 <= 0xffff_ffff_ffff_ffff * 0x1_0000_0000_0000)
            by (nonlinear_arith)
            requires
                0 <= wide <= 0xffff_ffff_ffff_ffff,
        ;
        I80F48 { bits: wide * SCALE }
    }

    /// The sum, or `None` where it does not fit.
    pub fn checked_add(self, rhs: I80F48) -> (r: Option<I80F48>)
        ensures
            r == checked(self.bits + rhs.bits),
    {
        match self.bits.checked_add(rhs.bits) {
            Some(bits) => Some(I80F48 { bits }),
            None => None,
        }
    }

    /// The difference, or `None` where it does not fit.
    pub fn checked_sub(self, rhs: I80F48) -> (r: Option<I80F48>)
        ensures
            r == checked(self.bits - rhs.bits),
    {
        match self.bits.checked_sub(rhs.bits) {
            Some(bits) => Some(I80F48 { bits }),
            None => None,
        }
    }

    /// The product rounded down, or `None` where it does not fit.
    pub fn checked_mul(self, rhs: I80F48) -> (r: Option<I80F48>)
        ensures
            r == checked(product(self.bits as int, rhs.bits as int, Rounding::Down)),
    {
        match raw_checked_mul(self.bits, rhs.bits) {
            Some(bits) => Some(I80F48 { bits }),
            None => None,
        }
    }

    /// The quotient rounded towards zero, or `None` where the divisor is zero
    /// or the quotient does not fit.
    pub fn checked_div(self, rhs: I80F48) -> (r: Option<I80F48>)
        ensures
            r == (if rhs.bits == 0 {
                None
            } else {
                checked(trunc_quotient(self.bits * SCALE, rhs.bits as int))
            }),
    {
        match raw_checked_div(self.bits, rhs.bits) {
            Some(bits) => Some(I80F48 { bits }),
            None => None,
        }
    }

    /// The product rounded in the given direction.
    pub fn mul_round(self, rhs: I80F48, rounding: Rounding) -> (r: Option<I80F48>)
        ensures
            r == spec_mul_round(self.bits as int, rhs.bits as int, rounding),
    {
        proof {
            lemma_ceil_is_floor_plus_remainder(self.bits * rhs.bits, SCALE as int);
        }
        match raw_checked_mul(self.bits, rhs.bits) {
            None => None,
            Some(down) => {
                let exact = match rounding {
                    Rounding::Down => true,
                    Rounding::Up => product_is_whole(self.bits, rhs.bits),
                };
                if exact {
                    Some(I80F48 { bits: down })
                } else {
                    match down.checked_add(1) {
                        Some(bits) => Some(I80F48 { bits }),
                        None => None,
                    }
                }
            },
        }
    }

    /// The quotient rounded in the given direction.
    pub fn div_round(self, rhs: I80F48, rounding: Rounding) -> (r: Option<I80F48>)
        ensures
            r == spec_div_round(self.bits as int, rhs.bits as int, rounding),
    {
        let a: i128 = self.bits;
        let b: i128 = rhs.bits;
        match raw_checked_div(a, b) {
            None => None,
            Some(t) => {
                let back = raw_checked_mul(t, b);
                let whole = product_is_whole(t, b);
                let exact = whole && back == Some(a);
                let positive = (a >= 0) == (b > 0);
                proof {
                    lemma_div_round_cases(a as int, b as int, t as int);
                }
                if exact {
                    Some(I80F48 { bits: t })
                } else if positive {
                    match rounding {
                        Rounding::Down => Some(I80F48 { bits: t }),
                        Rounding::Up => match t.checked_add(1) {
                            Some(bits) => Some(I80F48 { bits }),
                            None => None,
                        },
                    }
                } else {
                    match rounding {
                        Rounding::Up => Some(I80F48 { bits: t }),
                        Rounding::Down => match t.checked_sub(1) {
                            Some(bits) => Some(I80F48 { bits }),
                            None => None,
                        },
                    }
                }
            },
        }
    }

    /// The whole number of units in the number, rounded in the given
    /// direction, or `None` where that is negative or does not fit in 64 bits.
    pub fn to_u64(self, rounding: Rounding) -> (r: Option<u64>)
        ensures
            r == self.spec_to_u64(rounding),
    {
        proof {
            lemma_ceil_is_floor_plus_remainder(self.bits as int, SCALE as int);
            lemma_floor_quotient_is_greatest(self.bits as int, SCALE as int, 0);
            lemma_floor_quotient_is_greatest(self.bits as int, SCALE as int, -1);
        }
        if self.bits < 0 {
            if self.bits > -SCALE && rounding == Rounding::Up {
                Some(0)
            } else {
                None
            }
        } else {
            let down: i128 = self.bits / SCALE;
            let rest: i128 = self.bits % SCALE;
            let whole: i128 = if rest != 0 && rounding == Rounding::Up {
                down + 1
            } else {
                down
            };
            if whole <= 0xffff_ffff_ffff_ffff {
                Some(whole as u64)
            } else {
                None
            }
        }
    }

    /// Whether the number is zero.
    pub fn is_zero(self) -> (r: bool)
        ensures
            r == (self.bits == 0),
    {
        self.bits == 0
    }

    /// The smaller of two numbers.
    pub fn min(self, other: I80F48) -> (r: I80F48)
        ensures
            r.bits == (if self.bits <= other.bits {
                self.bits
            } else {
                other.bits
            }),
    {
        if self.bits <= other.bits {
            self
        } else {
            other
        }
    }
}

/// How the quotient rounded towards zero, `t`, relates to the quotient rounded
/// down and up, and how multiplying it back tells whether it is exact.
proof fn lemma_div_round_cases(a: int, b: int, t: int)
    requires
        b != 0,
        t == trunc_quotient(a * SCALE, b),
    ensures
        ({
            let n = a * SCALE;
            let exact = (t * b) % (SCALE as int) == 0 && floor_quotient(t * b, SCALE as int) == a;
            let positive = (a >= 0) == (b > 0);
            &&& exact ==> floor_quotient(n, b) == t && ceil_quotient(n, b) == t
            &&& !exact && positive ==> floor_quotient(n, b) == t && ceil_quotient(n, b) == t + 1
            &&& !exact && !positive ==> floor_quotient(n, b) == t - 1 && ceil_quotient(n, b) == t
        }),
{
    let s = SCALE as int;
    let n = a * s;
    // Reduce to a positive divisor `d` and a numerator `m` with `m / d == n / b`.
    let d = if b > 0 {
        b
    } else {
        -b
    };
    let m = if b > 0 {
        n
    } else {
        -n
    };
    assert(a >= 0 <==> n >= 0) by (nonlinear_arith)
        requires
            n == a * s,
            s > 0,
    ;
    assert(floor_quotient(n, b) == m / d);
    assert(ceil_quotient(n, b) == -((-m) / d));
    lemma_ceil_is_floor_plus_remainder(m, d);
    lemma_quotient_bounds(m, d);
    let f = m / d;
    // `t * b == n` exactly when `t * d == m`.
    assert(t * b == n <==> t * d == m) by (nonlinear_arith)
        requires
            b != 0,
            d == (if b > 0 {
                b
            } else {
                -b
            }),
            m == (if b > 0 {
                n
            } else {
                -n
            }),
    ;
    // Multiplying back and dividing by the scale recovers `a` exactly when
    // `t * b == n`.
    assert(((t * b) % s == 0 && (t * b) / s == a) <==> t * b == n) by {
        lemma_fundamental_div_mod(t * b, s);
        if t * b == n {
            lemma_fundamental_div_mod_converse(n, s, a, 0);
        } else if (t * b) % s == 0 && (t * b) / s == a {
            assert(s * a == a * s) by {
                lemma_mul_is_commutative(s, a);
            }
        }
    }
    // `t * d == m` exactly when the division leaves no remainder and `t` is
    // the quotient.
    lemma_fundamental_div_mod(m, d);
    lemma_mod_bound(m, d);
    assert(m == f * d + m % d) by {
        lemma_mul_is_commutative(d, f);
    }
    if m % d == 0 {
        assert(t == f);
    } else {
        if t * d == m {
            lemma_fundamental_div_mod_converse(m, d, t, 0);
        }
        if m > 0 {
            // Same signs: rounding towards zero rounds down.
            assert((n >= 0) == (b > 0));
        } else {
            assert(m < 0);
            assert((n >= 0) != (b > 0));
        }
    }
}

/// The product of two non-negative numbers is not negative.
pub proof fn lemma_product_nonnegative(a: int, b: int, rounding: Rounding)
    requires
        a >= 0,
        b >= 0,
    ensures
        product(a, b, rounding) >= 0,
{
    lemma_mul_nonnegative(a, b);
    lemma_rounded_quotient_monotonic(0, a * b, SCALE as int, rounding);
    lemma_rounded_quotient_of_multiple(0, SCALE as int, rounding);
}

/// The product grows with its first factor when the second is not negative.
pub proof fn lemma_product_monotonic(a1: int, a2: int, b: int, rounding: Rounding)
    requires
        a1 <= a2,
        b >= 0,
    ensures
        product(a1, b, rounding) <= product(a2, b, rounding),
        product(b, a1, rounding) <= product(b, a2, rounding),
{
    lemma_mul_inequality(a1, a2, b);
    lemma_mul_is_commutative(a1, b);
    lemma_mul_is_commutative(a2, b);
    lemma_rounded_quotient_monotonic(a1 * b, a2 * b, SCALE as int, rounding);
}

/// Multiplying by one changes nothing; multiplying a non-negative number by
/// at least one does not make it smaller, by at most one not larger.
pub proof fn lemma_product_by_one(v: int, m: int, rounding: Rounding)
    ensures
        product(v, SCALE as int, rounding) == v,
        v >= 0 && m >= SCALE ==> product(v, m, rounding) >= v,
        v >= 0 && m <= SCALE ==> product(v, m, rounding) <= v,
{
    lemma_rounded_quotient_of_multiple(v, SCALE as int, rounding);
    if v >= 0 && m >= SCALE {
        lemma_product_monotonic(SCALE as int, m, v, rounding);
    }
    if v >= 0 && m <= SCALE {
        lemma_product_monotonic(m, SCALE as int, v, rounding);
    }
}

/// The quotient of a non-negative number by a positive one is not negative,
/// and rounding it towards zero is rounding it down.
pub proof fn lemma_quotient_nonnegative(a: int, b: int, rounding: Rounding)
    requires
        a >= 0,
        b > 0,
    ensures
        quotient(a, b, rounding) >= 0,
        trunc_quotient(a * SCALE, b) == quotient(a, b, Rounding::Down),
        quotient(a, b, Rounding::Down) <= quotient(a, b, Rounding::Up),
{
    lemma_mul_nonnegative(a, SCALE as int);
    lemma_rounded_quotient_monotonic(0, a * SCALE, b, rounding);
    lemma_rounded_quotient_of_multiple(0, b, rounding);
    lemma_quotient_bounds(a * SCALE, b);
}

/// The quotient grows with the dividend when the divisor is positive.
pub proof fn lemma_quotient_monotonic(a1: int, a2: int, b: int, rounding: Rounding)
    requires
        a1 <= a2,
        b > 0,
    ensures
        quotient(a1, b, rounding) <= quotient(a2, b, rounding),
{
    lemma_mul_inequality(a1, a2, SCALE as int);
    lemma_rounded_quotient_monotonic(a1 * SCALE, a2 * SCALE, b, rounding);
}

/// Dividing a number by a positive rate and multiplying the result by the
/// same rate, both rounded down, gives at most the number; both rounded up, at
/// least the number.
pub proof fn lemma_quotient_product_round_trip(a: int, rate: int)
    requires
        rate > 0,
    ensures
        product(quotient(a, rate, Rounding::Down), rate, Rounding::Down) <= a,
        product(quotient(a, rate, Rounding::Up), rate, Rounding::Up) >= a,
{
    let s = SCALE as int;
    let down = quotient(a, rate, Rounding::Down);
    let up = quotient(a, rate, Rounding::Up);
    lemma_quotient_bounds(a * s, rate);
    // down * rate <= a * s <= up * rate
    lemma_rounded_quotient_monotonic(down * rate, a * s, s, Rounding::Down);
    lemma_rounded_quotient_monotonic(a * s, up * rate, s, Rounding::Up);
    lemma_rounded_quotient_of_multiple(a, s, Rounding::Down);
    lemma_rounded_quotient_of_multiple(a, s, Rounding::Up);
}

/// Multiplying a number by a positive rate and dividing the result by the
/// same rate, both rounded down, gives at most the number; both rounded up, at
/// least the number.
pub proof fn lemma_product_quotient_round_trip(a: int, rate: int)
    requires
        rate > 0,
    ensures
        quotient(product(a, rate, Rounding::Down), rate, Rounding::Down) <= a,
        quotient(product(a, rate, Rounding::Up), rate, Rounding::Up) >= a,
{
    let s = SCALE as int;
    let down = product(a, rate, Rounding::Down);
    let up = product(a, rate, Rounding::Up);
    lemma_quotient_bounds(a * rate, s);
    // down * s <= a * rate <= up * s
    lemma_rounded_quotient_monotonic(down * s, a * rate, rate, Rounding::Down);
    lemma_rounded_quotient_monotonic(a * rate, up * s, rate, Rounding::Up);
    lemma_rounded_quotient_of_multiple(a, rate, Rounding::Down);
    lemma_rounded_quotient_of_multiple(a, rate, Rounding::Up);
}

} // verus!
