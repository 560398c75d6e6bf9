//! Double-precision numbers: the binary64 format and the arithmetic on it, with
//! every result rounded to nearest, ties to even.
use crate::rounding::{HIDDEN_BIT, INFINITE};
use crate::scaled::{power_of_two, round_quotient, round_scaled};
use vstd::prelude::*;
use vstd::arithmetic::power2::*;

verus! {

/// The sign bit of the encoding.
pub const SIGN: u64 = 0x8000_0000_0000_0000;

/// The encoding of the quiet value that is not a number.
pub const NOT_A_NUMBER: u64 = 0x7FF8_0000_0000_0000;

/// A double-precision number, held as the bits of its binary64 encoding.
#[derive(Clone, Copy, Debug, PartialEq, Eq, Structural)]
pub struct Double {
    pub bits: u64,
}

impl Double {
    pub open spec fn spec_negative(self) -> bool {
        self.bits >= SIGN
    }

    /// The encoding without its sign.
    pub open spec fn magnitude(self) -> nat {
        if self.bits >= SIGN {
            (self.bits - SIGN) as nat
        } else {
            self.bits as nat
        }
    }

    pub open spec fn nan(self) -> bool {
        self.magnitude() > INFINITE
    }

    pub open spec fn infinite(self) -> bool {
        self.magnitude() == INFINITE
    }

    pub open spec fn zero(self) -> bool {
        self.magnitude() == 0
    }

    /// The absolute value, in units of the smallest positive double. An infinity
    /// counts as the power of two that follows the largest finite number.
    pub open spec fn units(self) -> nat {
        crate::rounding::units_of(self.magnitude())
    }

    pub open spec fn signed_units(self) -> int {
        if self.spec_negative() {
            -(self.units() as int)
        } else {
            self.units() as int
        }
    }

    /// The number of units in one.
    pub open spec fn one_units() -> nat {
        pow2(1074)
    }

    pub open spec fn encoded(negative: bool, magnitude: nat) -> Double {
        Double {
            bits: (if negative {
                SIGN + magnitude
            } else {
                magnitude as int
            }) as u64,
        }
    }

    pub open spec fn undefined() -> Double {
        Double { bits: NOT_A_NUMBER }
    }

    /// The double nearest to `(-1)^negative * num / den` units.
    pub open spec fn rounded(negative: bool, num: nat, den: nat) -> Double {
        Double::encoded(negative, crate::rounding::round_magnitude(num, den))
    }

    /// The double nearest to the integer `n`.
    #[verifier::opaque]
    pub open spec fn of(n: nat) -> Double {
        Double::rounded(false, n * Double::one_units(), 1)
    }

    /// The double nearest to `p / q`.
    #[verifier::opaque]
    pub open spec fn of_ratio(p: nat, q: nat) -> Double {
        Double::rounded(false, p * Double::one_units(), q)
    }

    #[verifier::opaque]
    pub open spec fn product(self, other: Double) -> Double {
        let negative = self.spec_negative() != other.spec_negative();
        if self.nan() || other.nan() {
            Double::undefined()
        } else if self.infinite() || other.infinite() {
            if self.zero() || other.zero() {
                Double::undefined()
            } else {
                Double::encoded(negative, INFINITE as nat)
            }
        } else {
            Double::rounded(negative, self.units() * other.units(), Double::one_units())
        }
    }

    #[verifier::opaque]
    pub open spec fn quotient(self, other: Double) -> Double {
        let negative = self.spec_negative() != other.spec_negative();
        if self.nan() || other.nan() {
            Double::undefined()
        } else if self.infinite() {
            if other.infinite() {
                Double::undefined()
            } else {
                Double::encoded(negative, INFINITE as nat)
            }
        } else if other.infinite() {
            Double::encoded(negative, 0)
        } else if other.zero() {
            if self.zero() {
                Double::undefined()
            } else {
                Double::encoded(negative, INFINITE as nat)
            }
        } else {
            Double::rounded(negative, self.units() * Double::one_units(), other.units())
        }
    }

    #[verifier::opaque]
    pub open spec fn sum(self, other: Double) -> Double {
        let total = self.signed_units() + other.signed_units();
        if self.nan() || other.nan() {
            Double::undefined()
        } else if self.infinite() {
            if other.infinite() && self.spec_negative() != other.spec_negative() {
                Double::undefined()
            } else {
                self
            }
        } else if other.infinite() {
            other
        } else if total == 0 {
            Double::encoded(self.spec_negative() && other.spec_negative(), 0)
        } else if total < 0 {
            Double::rounded(true, (-total) as nat, 1)
        } else {
            Double::rounded(false, total as nat, 1)
        }
    }

    pub open spec fn opposite(self) -> Double {
        Double::encoded(!self.spec_negative(), self.magnitude())
    }

    pub open spec fn difference(self, other: Double) -> Double {
        self.sum(other.opposite())
    }

    /// `self < other`; no comparison with a value that is not a number holds.
    #[verifier::opaque]
    pub open spec fn less(self, other: Double) -> bool {
        !self.nan() && !other.nan() && self.signed_units() < other.signed_units()
    }

    /// `self <= other`.
    #[verifier::opaque]
    pub open spec fn at_most(self, other: Double) -> bool {
        !self.nan() && !other.nan() && self.signed_units() <= other.signed_units()
    }

    /// The larger of two numbers; a value that is not a number gives way.
    pub open spec fn larger(self, other: Double) -> Double {
        if self.nan() || self.less(other) {
            other
        } else {
            self
        }
    }

    /// The smaller of two numbers; a value that is not a number gives way.
    pub open spec fn smaller(self, other: Double) -> Double {
        if self.nan() || other.less(self) {
            other
        } else {
            self
        }
    }

    /// The integer part, held to the range of `u64`; what is not a number is zero.
    #[verifier::opaque]
    pub open spec fn truncated(self) -> u64 {
        let n = self.units() / Double::one_units();
        if self.nan() || self.spec_negative() {
            0
        } else if n <= u64::MAX {
            n as u64
        } else {
            u64::MAX
        }
    }

    /// The nearest integer, halves away from zero, held to the range of `u64`;
    /// what is not a number is zero.
    #[verifier::opaque]
    pub open spec fn nearest_integer(self) -> u64 {
        let n = (2 * self.units() + Double::one_units()) / (2 * Double::one_units());
        if self.nan() || self.spec_negative() {
            0
        } else if n <= u64::MAX {
            n as u64
        } else {
            u64::MAX
        }
    }

}

impl Double {
    #[verifier::allow_in_spec]
    pub fn positive_infinity() -> Double
        returns
            (Double { bits: INFINITE }),
    {
        Double { bits: INFINITE }
    }

    #[verifier::allow_in_spec]
    pub fn positive_zero() -> Double
        returns
            (Double { bits: 0 }),
    {
        Double { bits: 0 }
    }

    pub fn is_negative(self) -> (b: bool)
        ensures
            b == self.spec_negative(),
    {
        self.bits >= SIGN
    }

    fn magnitude_bits(self) -> (m: u64)
        ensures
            m == self.magnitude(),
    {
        if self.bits >= SIGN {
            self.bits - SIGN
        } else {
            self.bits
        }
    }

    fn with_sign(negative: bool, magnitude: u64) -> (r: Double)
        requires
            magnitude <= INFINITE,
        ensures
            r == Double::encoded(negative, magnitude as nat),
    {
        if negative {
            Double { bits: SIGN + magnitude }
        } else {
            Double { bits: magnitude }
        }
    }

    pub fn is_nan(self) -> (b: bool)
        ensures
            b == self.nan(),
    {
        self.magnitude_bits() > INFINITE
    }

    pub fn is_infinite(self) -> (b: bool)
        ensures
            b == self.infinite(),
    {
        self.magnitude_bits() == INFINITE
    }

    fn significand(self) -> (m: u64)
        ensures
            m == crate::rounding::significand_of(self.magnitude()),
            m < 2 * HIDDEN_BIT,
    {
        let mag: u64 = self.magnitude_bits();
        if mag < HIDDEN_BIT {
            mag
        } else {
            HIDDEN_BIT + mag % HIDDEN_BIT
        }
    }

    fn doublings(self) -> (k: i32)
        ensures
            k == crate::rounding::doublings_of(self.magnitude()),
            0 <= k <= 2046,
    {
        let mag: u64 = self.magnitude_bits();
        if mag < HIDDEN_BIT {
            0
        } else {
            (mag / HIDDEN_BIT) as i32 - 1
        }
    }

    /// The double nearest to `n`.
    pub fn from_u128(n: u128) -> (r: Double)
        requires
            n < 0x8000_0000_0000_0000_0000_0000_0000_0000,
        ensures
            r == Double::of(n as nat),
    {
        proof {
            reveal(Double::of);
            lemma2_to64();
        }
        Double::with_sign(false, round_scaled(n, 1074))
    }

    /// The double nearest to `n`.
    pub fn from_u64(n: u64) -> (r: Double)
        ensures
            r == Double::of(n as nat),
    {
        Double::from_u128(n as u128)
    }

    /// The double nearest to `p / q`.
    pub fn ratio(p: u64, q: u64) -> (r: Double)
        requires
            q > 0,
        ensures
            r == Double::of_ratio(p as nat, q as nat),
    {
        proof {
            reveal(Double::of_ratio);
            lemma2_to64();
            assert(q as nat * 1 == q as nat);
        }
        Double::with_sign(false, round_quotient(p, q, 1074))
    }

    pub fn times(self, other: Double) -> (r: Double)
        ensures
            r == self.product(other),
    {
        proof {
            reveal(Double::product);
        }
        let negative: bool = self.is_negative() != other.is_negative();
        if self.is_nan() || other.is_nan() {
            return Double { bits: NOT_A_NUMBER };
        }
        if self.is_infinite() || other.is_infinite() {
            if self.magnitude_bits() == 0 || other.magnitude_bits() == 0 {
                return Double { bits: NOT_A_NUMBER };
            }
            return Double::with_sign(negative, INFINITE);
        }
        let m1: u128 = self.significand() as u128;
        let m2: u128 = other.significand() as u128;
        let k1: i32 = self.doublings();
        let k2: i32 = other.doublings();
        assert(m1 * m2 < 0x20_0000_0000_0000 * 0x20_0000_0000_0000) by (nonlinear_arith)
            requires
                m1 < 0x20_0000_0000_0000,
                m2 < 0x20_0000_0000_0000,
        ;
        proof {
            lemma_product_units(self, other);
        }
        Double::with_sign(negative, round_scaled(m1 * m2, k1 + k2 - 1074))
    }

    pub fn over(self, other: Double) -> (r: Double)
        ensures
            r == self.quotient(other),
    {
        proof {
            reveal(Double::quotient);
        }
        let negative: bool = self.is_negative() != other.is_negative();
        if self.is_nan() || other.is_nan() {
            return Double { bits: NOT_A_NUMBER };
        }
        if self.is_infinite() {
            if other.is_infinite() {
                return Double { bits: NOT_A_NUMBER };
            }
            return Double::with_sign(negative, INFINITE);
        }
        if other.is_infinite() {
            return Double::with_sign(negative, 0);
        }
        if other.magnitude_bits() == 0 {
            if self.magnitude_bits() == 0 {
                return Double { bits: NOT_A_NUMBER };
            }
            return Double::with_sign(negative, INFINITE);
        }
        proof {
            lemma_quotient_units(self, other);
        }
        let s: i32 = self.doublings() - other.doublings() + 1074;
        Double::with_sign(negative, round_quotient(self.significand(), other.significand(), s))
    }
}

impl Double {
    pub fn plus(self, other: Double) -> (r: Double)
        ensures
            r == self.sum(other),
    {
        proof {
            reveal(Double::sum);
        }
        if self.is_nan() || other.is_nan() {
            return Double { bits: NOT_A_NUMBER };
        }
        if self.is_infinite() {
            if other.is_infinite() && self.is_negative() != other.is_negative() {
                return Double { bits: NOT_A_NUMBER };
            }
            return self;
        }
        if other.is_infinite() {
            return other;
        }
        if self.doublings() >= other.doublings() {
            Double::plus_ordered(self, other)
        } else {
            Double::plus_ordered(other, self)
        }
    }

    fn plus_ordered(big: Double, small: Double) -> (r: Double)
        requires
            big.magnitude() < INFINITE,
            small.magnitude() < INFINITE,
            crate::rounding::doublings_of(big.magnitude()) >= crate::rounding::doublings_of(
                small.magnitude(),
            ),
        ensures
            r == big.sum(small),
    {
        let m1: u64 = big.significand();
        let m2: u64 = small.significand();
        let k1: i32 = big.doublings();
        let k2: i32 = small.doublings();
        proof {
            reveal(Double::sum);
            crate::rounding::lemma_units_parts(big.magnitude());
            crate::rounding::lemma_units_parts(small.magnitude());
        }
        if k1 - k2 > 64 {
            proof {
                lemma_dominant(big, small);
            }
            return big;
        }
        let up: u128 = power_of_two((k1 - k2) as u32);
        proof {
            lemma_pow2_adds((k1 - k2) as nat, k2 as nat);
            lemma2_to64();
            crate::scaled::lemma_pow2_le((k1 - k2) as nat, 64);
            lemma_pow2_pos(k2 as nat);
        }
        assert(m1 * up < 0x20_0000_0000_0000 * 0x1_0000_0000_0000_0000) by (nonlinear_arith)
            requires
                m1 < 0x20_0000_0000_0000,
                0 < up <= 0x1_0000_0000_0000_0000,
        ;
        assert(m1 * up >= 0) by (nonlinear_arith);
        let p: i128 = (m1 as u128 * up) as i128;
        let x: i128 = if big.is_negative() {
            -p
        } else {
            p
        };
        let y: i128 = if small.is_negative() {
            -(m2 as i128)
        } else {
            m2 as i128
        };
        let total: i128 = x + y;
        proof {
            let w = pow2(k2 as nat);
            let p1 = pow2(k1 as nat);
            assert(big.units() == p * w) by (nonlinear_arith)
                requires
                    big.units() == m1 * p1,
                    p1 == up * w,
                    p == m1 * up,
            ;
            assert((-p) * w == -(p * w)) by (nonlinear_arith);
            assert((-(m2 as int)) * w == -(m2 * w)) by (nonlinear_arith);
            assert(big.signed_units() == x * w);
            assert(small.signed_units() == y * w);
            assert(big.signed_units() + small.signed_units() == total * w) by (nonlinear_arith)
                requires
                    big.signed_units() == x * w,
                    small.signed_units() == y * w,
                    total == x + y,
            ;
            assert(total * w < 0 <==> total < 0) by (nonlinear_arith)
                requires
                    w > 0,
            ;
            assert(total * w == 0 <==> total == 0) by (nonlinear_arith)
                requires
                    w > 0,
            ;
            assert((-total) * w == -(total * w)) by (nonlinear_arith);
        }
        if total == 0 {
            Double::with_sign(big.is_negative() && small.is_negative(), 0)
        } else if total < 0 {
            Double::with_sign(true, round_scaled((-total) as u128, k2))
        } else {
            Double::with_sign(false, round_scaled(total as u128, k2))
        }
    }

    pub fn minus(self, other: Double) -> (r: Double)
        ensures
            r == self.difference(other),
    {
        if other.is_nan() {
            proof {
                reveal(Double::sum);
            }
            return Double { bits: NOT_A_NUMBER };
        }
        let opposite: Double = Double::with_sign(!other.is_negative(), other.magnitude_bits());
        self.plus(opposite)
    }

    pub fn is_less(self, other: Double) -> (b: bool)
        ensures
            b == self.less(other),
    {
        let m1: u64 = self.magnitude_bits();
        let m2: u64 = other.magnitude_bits();
        proof {
            reveal(Double::less);
            lemma_units_order(m1 as nat, m2 as nat);
            lemma_units_order(m2 as nat, m1 as nat);
            lemma_units_order(0, m1 as nat);
            lemma_units_order(0, m2 as nat);
        }
        if self.is_nan() || other.is_nan() {
            false
        } else if self.is_negative() {
            if other.is_negative() {
                m2 < m1
            } else {
                m1 > 0 || m2 > 0
            }
        } else {
            !other.is_negative() && m1 < m2
        }
    }

    pub fn is_at_most(self, other: Double) -> (b: bool)
        ensures
            b == self.at_most(other),
    {
        proof {
            reveal(Double::less);
            reveal(Double::at_most);
        }
        !self.is_nan() && !other.is_nan() && !other.is_less(self)
    }

    pub fn max_with(self, other: Double) -> (r: Double)
        ensures
            r == self.larger(other),
    {
        if self.is_nan() || self.is_less(other) {
            other
        } else {
            self
        }
    }

    pub fn min_with(self, other: Double) -> (r: Double)
        ensures
            r == self.smaller(other),
    {
        if self.is_nan() || other.is_less(self) {
            other
        } else {
            self
        }
    }

    /// The integer part.
    pub fn to_u64(self) -> (n: u64)
        ensures
            n == self.truncated(),
    {
        let m: u64 = self.significand();
        let k: i32 = self.doublings();
        proof {
            reveal(Double::truncated);
            crate::rounding::lemma_units_parts(self.magnitude());
            lemma2_to64();
            lemma2_to64_rest();
        }
        if self.is_nan() || self.is_negative() {
            return 0;
        }
        if k >= 1074 {
            proof {
                lemma_whole_units(m as nat, k as nat);
            }
            if k >= 1086 {
                proof {
                    crate::scaled::lemma_pow2_le(12, (k - 1074) as nat);
                    assert(m * pow2((k - 1074) as nat) >= 0x10_0000_0000_0000 * 0x1000)
                        by (nonlinear_arith)
                        requires
                            m >= 0x10_0000_0000_0000,
                            pow2((k - 1074) as nat) >= 0x1000,
                    ;
                }
                return u64::MAX;
            }
            let up: u128 = power_of_two((k - 1074) as u32);
            proof {
                crate::scaled::lemma_pow2_le((k - 1074) as nat, 11);
                assert(m * up < 0x20_0000_0000_0000 * 0x800) by (nonlinear_arith)
                    requires
                        m < 0x20_0000_0000_0000,
                        0 < up <= 0x800,
                ;
                assert(m * up >= 0) by (nonlinear_arith);
            }
            return (m as u128 * up) as u64;
        }
        proof {
            lemma_cut_units(m as nat, k as nat);
        }
        let j: u32 = (1074 - k) as u32;
        if j >= 53 {
            proof {
                crate::scaled::lemma_pow2_le(53, j as nat);
                vstd::arithmetic::div_mod::lemma_basic_div(m as int, pow2(j as nat) as int);
            }
            return 0;
        }
        let d: u128 = power_of_two(j);
        proof {
            assert(m as nat / pow2(j as nat) <= m) by {
                vstd::arithmetic::div_mod::lemma_div_nonincreasing(m as int, pow2(j as nat) as int);
            }
        }
        (m as u128 / d) as u64
    }

    /// The nearest integer, halves away from zero.
    pub fn round_to_u64(self) -> (n: u64)
        ensures
            n == self.nearest_integer(),
    {
        let m: u64 = self.significand();
        let k: i32 = self.doublings();
        proof {
            reveal(Double::truncated);
            reveal(Double::nearest_integer);
            crate::rounding::lemma_units_parts(self.magnitude());
            lemma2_to64();
            lemma2_to64_rest();
        }
        if self.is_nan() || self.is_negative() {
            return 0;
        }
        if k >= 1074 {
            proof {
                lemma_whole_units(m as nat, k as nat);
                lemma_whole_plus_half(m as nat, k as nat);
            }
            return self.to_u64();
        }
        let j: u32 = (1074 - k) as u32;
        proof {
            lemma_cut_plus_half(m as nat, k as nat);
        }
        if j >= 55 {
            proof {
                crate::scaled::lemma_pow2_le(55, j as nat);
                lemma_pow2_unfold((j + 1) as nat);
                vstd::arithmetic::div_mod::lemma_basic_div(
                    2 * m + pow2(j as nat),
                    pow2((j + 1) as nat) as int,
                );
            }
            return 0;
        }
        let d: u128 = power_of_two(j);
        let dd: u128 = power_of_two(j + 1);
        proof {
            crate::scaled::lemma_pow2_le(j as nat, 54);
            vstd::arithmetic::div_mod::lemma_div_nonincreasing(
                2 * m + pow2(j as nat),
                pow2((j + 1) as nat) as int,
            );
        }
        ((2 * m as u128 + d) / dd) as u64
    }
}

/// The order of encodings is the order of units.
proof fn lemma_units_order(low: nat, high: nat)
    ensures
        low < high <==> crate::rounding::units_of(low) < crate::rounding::units_of(high),
        low == high <==> crate::rounding::units_of(low) == crate::rounding::units_of(high),
{
    if low < high {
        crate::rounding::lemma_units_increase(low, high);
    } else if high < low {
        crate::rounding::lemma_units_increase(high, low);
    }
}

proof fn lemma_whole_units(m: nat, k: nat)
    requires
        k >= 1074,
    ensures
        m * pow2(k) == (m * pow2((k - 1074) as nat)) * pow2(1074),
        (m * pow2(k)) / pow2(1074) == m * pow2((k - 1074) as nat),
{
    let e = (k - 1074) as nat;
    lemma_pow2_adds(e, 1074);
    lemma_pow2_pos(1074);
    assert(m * pow2(k) == (m * pow2(e)) * pow2(1074)) by (nonlinear_arith)
        requires
            pow2(k) == pow2(e) * pow2(1074),
    ;
    vstd::arithmetic::div_mod::lemma_fundamental_div_mod_converse(
        (m * pow2(k)) as int,
        pow2(1074) as int,
        (m * pow2(e)) as int,
        0,
    );
}

proof fn lemma_whole_plus_half(m: nat, k: nat)
    requires
        k >= 1074,
    ensures
        (2 * (m * pow2(k)) + pow2(1074)) / (2 * pow2(1074)) == (m * pow2(k)) / pow2(1074),
{
    lemma_whole_units(m, k);
    lemma_pow2_pos(1074);
    let n = m * pow2((k - 1074) as nat);
    let w = pow2(1074);
    assert(2 * (n * w) + w == n * (2 * w) + w) by (nonlinear_arith);
    vstd::arithmetic::div_mod::lemma_fundamental_div_mod_converse(
        (2 * (m * pow2(k)) + w) as int,
        2 * w as int,
        n as int,
        w as int,
    );
}

proof fn lemma_cut_units(m: nat, k: nat)
    requires
        k < 1074,
    ensures
        (m * pow2(k)) / pow2(1074) == m / pow2((1074 - k) as nat),
{
    let j = (1074 - k) as nat;
    lemma_pow2_adds(j, k);
    lemma_pow2_pos(j);
    lemma_pow2_pos(k);
    assert(m * pow2(k) == pow2(k) * m && pow2(j) * pow2(k) == pow2(k) * pow2(j)) by (nonlinear_arith);
    vstd::arithmetic::div_mod::lemma_div_multiples_vanish_quotient(
        pow2(k) as int,
        m as int,
        pow2(j) as int,
    );
}

proof fn lemma_cut_plus_half(m: nat, k: nat)
    requires
        k < 1074,
    ensures
        (2 * (m * pow2(k)) + pow2(1074)) / (2 * pow2(1074)) == (2 * m + pow2((1074 - k) as nat))
            / pow2((1074 - k + 1) as nat),
{
    let j = (1074 - k) as nat;
    lemma_pow2_adds(j, k);
    lemma_pow2_unfold(j + 1);
    lemma_pow2_pos(j);
    lemma_pow2_pos(k);
    assert(2 * (m * pow2(k)) + pow2(1074) == pow2(k) * (2 * m + pow2(j)) && 2 * pow2(1074) == pow2(k)
        * pow2(j + 1)) by (nonlinear_arith)
        requires
            pow2(1074) == pow2(j) * pow2(k),
            pow2(j + 1) == 2 * pow2(j),
    ;
    vstd::arithmetic::div_mod::lemma_div_multiples_vanish_quotient(
        pow2(k) as int,
        (2 * m + pow2(j)) as int,
        pow2(j + 1) as int,
    );
}

/// A number that is far smaller than another is lost when it is added to it.
proof fn lemma_dominant(big: Double, small: Double)
    requires
        big.magnitude() < INFINITE,
        small.magnitude() < INFINITE,
        crate::rounding::doublings_of(big.magnitude()) > crate::rounding::doublings_of(
            small.magnitude(),
        ) + 64,
    ensures
        big.sum(small) == big,
{
    reveal(Double::sum);
    crate::rounding::lemma_units_parts(big.magnitude());
    crate::rounding::lemma_units_parts(small.magnitude());
    let m = crate::rounding::significand_of(big.magnitude());
    let k = crate::rounding::doublings_of(big.magnitude());
    let n = crate::rounding::significand_of(small.magnitude());
    let l = crate::rounding::doublings_of(small.magnitude());
    let whole = big.units();
    let part = small.units();
    let w = pow2(k);
    lemma2_to64();
    lemma2_to64_rest();
    lemma_pow2_pos(l);
    // The small number is less than a quarter of the last place of the big one.
    assert(4 * part < w) by {
        lemma_pow2_adds(55, l);
        crate::scaled::lemma_pow2_le(55 + l, k);
        assert(4 * (n * pow2(l)) < pow2(55) * pow2(l)) by (nonlinear_arith)
            requires
                4 * n < pow2(55),
                pow2(l) > 0,
        ;
    }
    assert(m * w >= w) by (nonlinear_arith)
        requires
            m >= 1,
            w > 0,
    ;
    lemma_pow2_adds(53, k);
    lemma_pow2_adds(52, k);
    assert(whole + w <= pow2(53) * w) by (nonlinear_arith)
        requires
            whole == m * w,
            m + 1 <= pow2(53),
            w > 0,
    ;
    assert(whole >= pow2(52) * w) by (nonlinear_arith)
        requires
            whole == m * w,
            m >= pow2(52),
            w > 0,
    ;
    if big.spec_negative() == small.spec_negative() {
        crate::rounding::lemma_nearest_at(whole + part, 1, k);
        vstd::arithmetic::div_mod::lemma_fundamental_div_mod_converse(
            (whole + part) as int,
            w as int,
            m as int,
            part as int,
        );
    } else if part == 0 {
        crate::rounding::lemma_nearest_units(big.magnitude());
    } else if m > HIDDEN_BIT {
        let rest = (whole - part) as nat;
        assert(whole >= pow2(52) * w + w) by (nonlinear_arith)
            requires
                whole == m * w,
                m >= pow2(52) + 1,
                w > 0,
        ;
        crate::rounding::lemma_nearest_at(rest, 1, k);
        assert(m * w == (m - 1) * w + w) by (nonlinear_arith);
        vstd::arithmetic::div_mod::lemma_fundamental_div_mod_converse(
            rest as int,
            w as int,
            m - 1,
            w - part,
        );
    } else {
        let rest = (whole - part) as nat;
        let h = (k - 1) as nat;
        lemma_pow2_unfold(k);
        lemma_pow2_unfold(52 + k);
        lemma_pow2_unfold(53 + k);
        assert(53 + h == 52 + k);
        crate::rounding::lemma_nearest_at(rest, 1, h);
        let v = pow2(h);
        assert(m * w == (pow2(53) - 1) * v + v) by (nonlinear_arith)
            requires
                w == 2 * v,
                2 * m == pow2(53),
        ;
        vstd::arithmetic::div_mod::lemma_fundamental_div_mod_converse(
            rest as int,
            v as int,
            pow2(53) - 1,
            v - part,
        );
    }
}

/// The product of two finite magnitudes, by significands and doublings.
proof fn lemma_product_units(a: Double, b: Double)
    ensures
        crate::rounding::nearest(a.units() * b.units(), Double::one_units())
            == crate::rounding::nearest(
            crate::scaled::scaled_num(
                crate::rounding::significand_of(a.magnitude())
                    * crate::rounding::significand_of(b.magnitude()),
                crate::rounding::doublings_of(a.magnitude()) + crate::rounding::doublings_of(
                    b.magnitude(),
                ) - 1074,
            ),
            crate::scaled::scaled_den(
                crate::rounding::doublings_of(a.magnitude()) + crate::rounding::doublings_of(
                    b.magnitude(),
                ) - 1074,
            ),
        ),
{
    crate::rounding::lemma_units_parts(a.magnitude());
    crate::rounding::lemma_units_parts(b.magnitude());
    let m1 = crate::rounding::significand_of(a.magnitude());
    let m2 = crate::rounding::significand_of(b.magnitude());
    let k1 = crate::rounding::doublings_of(a.magnitude());
    let k2 = crate::rounding::doublings_of(b.magnitude());
    let m = m1 * m2;
    let s = k1 + k2 - 1074;
    let up: nat = if s > 0 {
        s as nat
    } else {
        0
    };
    let down: nat = if s < 0 {
        (-s) as nat
    } else {
        0
    };
    lemma_pow2_adds(k1, k2);
    lemma_pow2_pos(down);
    lemma_pow2_pos(1074);
    assert((k1 + k2) + down == 1074 + up);
    lemma_pow2_adds(k1 + k2, down);
    lemma_pow2_adds(1074, up);
    assert((m1 * pow2(k1)) * (m2 * pow2(k2)) == m * pow2(k1 + k2)) by (nonlinear_arith)
        requires
            m == m1 * m2,
            pow2(k1 + k2) == pow2(k1) * pow2(k2),
    ;
    assert((m * pow2(k1 + k2)) * pow2(down) == (m * pow2(up)) * pow2(1074)) by (nonlinear_arith)
        requires
            pow2(k1 + k2) * pow2(down) == pow2(1074) * pow2(up),
    ;
    crate::rounding::lemma_nearest_same_quotient(
        m * pow2(k1 + k2),
        pow2(1074),
        m * pow2(up),
        pow2(down),
    );
}

/// The quotient of two finite magnitudes, by significands and doublings.
proof fn lemma_quotient_units(a: Double, b: Double)
    requires
        b.magnitude() > 0,
    ensures
        crate::rounding::nearest(a.units() * Double::one_units(), b.units())
            == crate::rounding::nearest(
            crate::scaled::scaled_num(
                crate::rounding::significand_of(a.magnitude()),
                crate::rounding::doublings_of(a.magnitude()) - crate::rounding::doublings_of(
                    b.magnitude(),
                ) + 1074,
            ),
            crate::rounding::significand_of(b.magnitude()) * crate::scaled::scaled_den(
                crate::rounding::doublings_of(a.magnitude()) - crate::rounding::doublings_of(
                    b.magnitude(),
                ) + 1074,
            ),
        ),
        crate::rounding::significand_of(b.magnitude()) > 0,
{
    crate::rounding::lemma_units_parts(a.magnitude());
    crate::rounding::lemma_units_parts(b.magnitude());
    let m1 = crate::rounding::significand_of(a.magnitude());
    let m2 = crate::rounding::significand_of(b.magnitude());
    let k1 = crate::rounding::doublings_of(a.magnitude());
    let k2 = crate::rounding::doublings_of(b.magnitude());
    let s = k1 - k2 + 1074;
    let up: nat = if s > 0 {
        s as nat
    } else {
        0
    };
    let down: nat = if s < 0 {
        (-s) as nat
    } else {
        0
    };
    lemma_pow2_pos(down);
    lemma_pow2_pos(k2);
    assert((k1 + 1074) + down == k2 + up);
    lemma_pow2_adds(k1, 1074);
    lemma_pow2_adds(k1 + 1074, down);
    lemma_pow2_adds(k2, up);
    assert(((m1 * pow2(k1)) * pow2(1074)) * (m2 * pow2(down)) == (m1 * pow2(up)) * (m2 * pow2(k2)))
        by (nonlinear_arith)
        requires
            (pow2(k1) * pow2(1074)) * pow2(down) == pow2(k2) * pow2(up),
    ;
    assert(m2 * pow2(down) > 0 && m2 * pow2(k2) > 0) by (nonlinear_arith)
        requires
            m2 > 0,
            pow2(down) > 0,
            pow2(k2) > 0,
    ;
    crate::rounding::lemma_nearest_same_quotient(
        (m1 * pow2(k1)) * pow2(1074),
        m2 * pow2(k2),
        m1 * pow2(up),
        m2 * pow2(down),
    );
}

} // verus!
