//! Rounding of exact quotients to binary floating point.
//!
//! Magnitudes are counted in units of the smallest positive double, so every
//! finite magnitude is a natural number of units, and every exact result of an
//! arithmetic operation is a quotient of two natural numbers of units.
use vstd::prelude::*;
use vstd::arithmetic::power2::*;

verus! {

/// The weight of the lowest bit of the exponent field, and the smallest
/// significand of a normal number.
pub const HIDDEN_BIT: u64 = 0x10_0000_0000_0000;

/// The encoding of a positive infinity; larger magnitudes are not numbers.
pub const INFINITE: u64 = 0x7FF0_0000_0000_0000;

/// `num / den` rounded to the nearest integer, ties to the even one.
pub open spec fn nearest_even(num: nat, den: nat) -> nat {
    let q = num / den;
    let r = num % den;
    if 2 * r < den {
        q
    } else if 2 * r > den {
        q + 1
    } else if q % 2 == 0 {
        q
    } else {
        q + 1
    }
}

/// The encoding of the double nearest to `num / den` units, were the exponent
/// unbounded: 53 significant bits, and one step of the exponent field for each
/// doubling beyond them.
pub open spec fn nearest(num: nat, den: nat) -> nat
    decreases num - den,
{
    if den == 0 || num < den * 0x20_0000_0000_0000 {
        nearest_even(num, den)
    } else {
        HIDDEN_BIT as nat + nearest(num, 2 * den)
    }
}

/// The encoding of the double nearest to `num / den` units: what is too large
/// for the exponent field is infinite.
pub open spec fn round_magnitude(num: nat, den: nat) -> nat {
    if nearest(num, den) < INFINITE {
        nearest(num, den)
    } else {
        INFINITE as nat
    }
}

/// How many units the magnitude with encoding `mag` holds.
pub open spec fn units_of(mag: nat) -> nat {
    if mag < HIDDEN_BIT {
        mag
    } else {
        (HIDDEN_BIT as nat + mag % (HIDDEN_BIT as nat)) * pow2(
            (mag / (HIDDEN_BIT as nat) - 1) as nat,
        )
    }
}

pub proof fn lemma_nearest_even_scale(c: nat, num: nat, den: nat)
    requires
        c > 0,
        den > 0,
    ensures
        nearest_even(c * num, c * den) == nearest_even(num, den),
{
    let q = num / den;
    let r = num % den;
    vstd::arithmetic::div_mod::lemma_fundamental_div_mod(num as int, den as int);
    assert(c * den > 0) by (nonlinear_arith)
        requires
            c > 0,
            den > 0,
    ;
    assert(c * num == (c * den) * q + c * r) by (nonlinear_arith)
        requires
            num == den * q + r,
    ;
    assert(0 <= c * r < c * den) by (nonlinear_arith)
        requires
            c > 0,
            0 <= r < den,
    ;
    vstd::arithmetic::div_mod::lemma_fundamental_div_mod_converse(
        (c * num) as int,
        (c * den) as int,
        q as int,
        (c * r) as int,
    );
    assert(2 * (c * r) < c * den <==> 2 * r < den) by (nonlinear_arith)
        requires
            c > 0,
    ;
    assert(2 * (c * r) > c * den <==> 2 * r > den) by (nonlinear_arith)
        requires
            c > 0,
    ;
}

/// The rounding of a quotient whose integer part is `k` doublings beyond 53 bits.
pub proof fn lemma_nearest_at(num: nat, den: nat, k: nat)
    requires
        den > 0,
        num < den * pow2(53 + k),
        k > 0 ==> num >= den * pow2((52 + k) as nat),
    ensures
        nearest(num, den) == k * HIDDEN_BIT + nearest_even(num, den * pow2(k)),
    decreases k,
{
    lemma2_to64();
    lemma2_to64_rest();
    if k == 0 {
        assert(den * pow2(0) == den) by (nonlinear_arith)
            requires
                pow2(0) == 1,
        ;
    } else {
        let j = (k - 1) as nat;
        lemma_pow2_unfold(k);
        lemma_pow2_unfold(53 + k);
        lemma_pow2_unfold(52 + k);
        if j > 0 {
            lemma_pow2_strictly_increases(53, 52 + k);
        }
        assert(num >= den * pow2(53)) by (nonlinear_arith)
            requires
                num >= den * pow2((52 + k) as nat),
                pow2(53) <= pow2((52 + k) as nat),
        ;
        assert(den * pow2(53 + k) == (2 * den) * pow2(53 + j)) by (nonlinear_arith)
            requires
                pow2(53 + k) == 2 * pow2(53 + j),
        ;
        assert(den * pow2(52 + k) == (2 * den) * pow2(52 + j)) by (nonlinear_arith)
            requires
                pow2(52 + k) == 2 * pow2(52 + j),
        ;
        assert(den * pow2(k) == (2 * den) * pow2(j)) by (nonlinear_arith)
            requires
                pow2(k) == 2 * pow2(j),
        ;
        lemma_nearest_at(num, 2 * den, j);
    }
}

/// Rounding sees only the quotient: a common factor changes nothing.
pub proof fn lemma_nearest_scale(c: nat, num: nat, den: nat)
    requires
        c > 0,
        den > 0,
    ensures
        nearest(c * num, c * den) == nearest(num, den),
    decreases num - den,
{
    assert(c * den > 0) by (nonlinear_arith)
        requires
            c > 0,
            den > 0,
    ;
    assert((c * den) * 0x20_0000_0000_0000 == c * (den * 0x20_0000_0000_0000)) by (nonlinear_arith);
    assert(c * num < c * (den * 0x20_0000_0000_0000) <==> num < den * 0x20_0000_0000_0000)
        by (nonlinear_arith)
        requires
            c > 0,
    ;
    if num < den * 0x20_0000_0000_0000 {
        lemma_nearest_even_scale(c, num, den);
    } else {
        assert(2 * (c * den) == c * (2 * den)) by (nonlinear_arith);
        lemma_nearest_scale(c, num, 2 * den);
    }
}

/// Equal quotients round alike.
pub proof fn lemma_nearest_same_quotient(num1: nat, den1: nat, num2: nat, den2: nat)
    requires
        den1 > 0,
        den2 > 0,
        num1 * den2 == num2 * den1,
    ensures
        nearest(num1, den1) == nearest(num2, den2),
{
    lemma_nearest_scale(den2, num1, den1);
    lemma_nearest_scale(den1, num2, den2);
    assert(den2 * num1 == den1 * num2) by (nonlinear_arith)
        requires
            num1 * den2 == num2 * den1,
    ;
    assert(den2 * den1 == den1 * den2) by (nonlinear_arith);
}

/// A quotient `a / b` may be cut to its integer part and one more bit, set where
/// something was cut, when it is rounded to a multiple of an even number.
pub proof fn lemma_nearest_even_sticky(a: nat, b: nat, half: nat)
    requires
        b > 0,
        half > 0,
    ensures
        nearest_even(a, b * (2 * half)) == nearest_even(
            2 * (a / b) + (if a % b > 0 {
                1nat
            } else {
                0nat
            }),
            2 * (2 * half),
        ),
{
    let d = 2 * half;
    let q = a / b;
    let r = a % b;
    let sticky: nat = if r > 0 { 1 } else { 0 };
    let quo = q / d;
    let rem = q % d;
    vstd::arithmetic::div_mod::lemma_fundamental_div_mod(a as int, b as int);
    vstd::arithmetic::div_mod::lemma_fundamental_div_mod(q as int, d as int);
    assert(a == quo * (b * d) + (b * rem + r)) by (nonlinear_arith)
        requires
            a == b * q + r,
            q == d * quo + rem,
    ;
    assert(b * rem + r < b * d) by (nonlinear_arith)
        requires
            r < b,
            rem < d,
            b > 0,
    ;
    assert(b * rem >= 0 && b * d > 0) by (nonlinear_arith)
        requires
            b > 0,
            d > 0,
            rem >= 0,
    ;
    vstd::arithmetic::div_mod::lemma_fundamental_div_mod_converse(
        a as int,
        (b * d) as int,
        quo as int,
        (b * rem + r) as int,
    );
    assert(2 * q + sticky == (2 * d) * quo + (2 * rem + sticky)) by (nonlinear_arith)
        requires
            q == d * quo + rem,
    ;
    vstd::arithmetic::div_mod::lemma_fundamental_div_mod_converse(
        (2 * q + sticky) as int,
        (2 * d) as int,
        quo as int,
        (2 * rem + sticky) as int,
    );
    assert(b * d == 2 * (b * half)) by (nonlinear_arith)
        requires
            d == 2 * half,
    ;
    if rem < half {
        assert(b * rem + r < b * half) by (nonlinear_arith)
            requires
                rem + 1 <= half,
                r < b,
                b > 0,
        ;
    } else if rem > half {
        assert(b * rem + r > b * half) by (nonlinear_arith)
            requires
                rem > half,
                r >= 0,
                b > 0,
        ;
    }
}

/// The significand and the number of doublings of an encoding.
pub open spec fn significand_of(mag: nat) -> nat {
    if mag < HIDDEN_BIT {
        mag
    } else {
        HIDDEN_BIT as nat + mag % (HIDDEN_BIT as nat)
    }
}

pub open spec fn doublings_of(mag: nat) -> nat {
    if mag < HIDDEN_BIT {
        0
    } else {
        (mag / (HIDDEN_BIT as nat) - 1) as nat
    }
}

pub proof fn lemma_units_parts(mag: nat)
    ensures
        units_of(mag) == significand_of(mag) * pow2(doublings_of(mag)),
        significand_of(mag) < 2 * HIDDEN_BIT,
        mag == doublings_of(mag) * HIDDEN_BIT + significand_of(mag),
        doublings_of(mag) > 0 ==> significand_of(mag) >= HIDDEN_BIT,
        mag < INFINITE ==> doublings_of(mag) <= 2045,
        mag <= INFINITE ==> doublings_of(mag) <= 2046,
        mag == 0 <==> significand_of(mag) == 0,
{
    lemma2_to64();
    assert(significand_of(mag) * 1 == significand_of(mag));
}

/// The larger encoding holds more units.
pub proof fn lemma_units_increase(low: nat, high: nat)
    requires
        low < high,
    ensures
        units_of(low) < units_of(high),
{
    lemma_units_parts(low);
    lemma_units_parts(high);
    let ml = significand_of(low);
    let mh = significand_of(high);
    let kl = doublings_of(low);
    let kh = doublings_of(high);
    lemma_pow2_pos(kl);
    if kl == kh {
        assert(ml * pow2(kl) < mh * pow2(kl)) by (nonlinear_arith)
            requires
                ml < mh,
                pow2(kl) > 0,
        ;
    } else {
        assert(kl < kh) by {
            if kl > kh {
                assert(kl * HIDDEN_BIT >= kh * HIDDEN_BIT + HIDDEN_BIT);
            }
        }
        lemma_pow2_unfold(kl + 1);
        if kl + 1 < kh {
            lemma_pow2_strictly_increases(kl + 1, kh);
        }
        assert(ml * pow2(kl) < mh * pow2(kh)) by (nonlinear_arith)
            requires
                ml < 2 * HIDDEN_BIT,
                mh >= HIDDEN_BIT,
                pow2(kh) >= 2 * pow2(kl),
                pow2(kl) > 0,
        ;
    }
}

/// A double rounds to itself.
pub proof fn lemma_nearest_units(mag: nat)
    ensures
        nearest(units_of(mag), 1) == mag,
{
    lemma_units_parts(mag);
    let m = significand_of(mag);
    let k = doublings_of(mag);
    lemma2_to64();
    lemma2_to64_rest();
    lemma_pow2_adds(53, k);
    lemma_pow2_adds(52, k);
    lemma_pow2_pos(k);
    assert(m * pow2(k) < pow2(53) * pow2(k)) by (nonlinear_arith)
        requires
            m < pow2(53),
            pow2(k) > 0,
    ;
    if k > 0 {
        assert(m * pow2(k) >= pow2(52) * pow2(k)) by (nonlinear_arith)
            requires
                m >= pow2(52),
                pow2(k) > 0,
        ;
    }
    lemma_nearest_at(units_of(mag), 1, k);
    vstd::arithmetic::div_mod::lemma_fundamental_div_mod_converse(
        (m * pow2(k)) as int,
        pow2(k) as int,
        m as int,
        0,
    );
}

} // verus!
