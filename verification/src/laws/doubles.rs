//! What the arithmetic on doubles keeps exact.
use crate::double::Double;
use crate::rounding::{HIDDEN_BIT, INFINITE};
use vstd::arithmetic::power2::*;
use vstd::prelude::*;

verus! {

/// Every number with a significand of at most 53 bits is a double, within the range of
/// the exponent.
pub proof fn lemma_short_number_encoding(n: nat, e: nat) -> (mag: nat)
    requires
        n < 0x20_0000_0000_0000,
        53 <= e <= 1074,
    ensures
        mag < INFINITE,
        crate::rounding::units_of(mag) == n * pow2(e),
{
    lemma2_to64();
    lemma2_to64_rest();
    if n == 0 {
        assert(0 * pow2(e) == 0);
        0
    } else {
        let len = crate::scaled::lemma_has_length(n);
        if len > 53 {
            crate::scaled::lemma_pow2_le(53, (len - 1) as nat);
        }
        let shift = (53 - len) as nat;
        let sig = n * pow2(shift);
        lemma_pow2_adds(shift, len);
        lemma_pow2_adds(shift, (len - 1) as nat);
        lemma_pow2_pos(shift);
        let p = pow2(shift);
        let low = pow2((len - 1) as nat);
        let high = pow2(len);
        assert(n * p >= p * low) by (nonlinear_arith)
            requires
                n >= low,
        ;
        assert(n * p < p * high) by (nonlinear_arith)
            requires
                n < high,
                p > 0,
        ;
        let k = (e - shift) as nat;
        lemma_pow2_adds(shift, k);
        assert((n * p) * pow2(k) == n * (p * pow2(k))) by (nonlinear_arith);
        let mag = k * (HIDDEN_BIT as nat) + sig;
        vstd::arithmetic::div_mod::lemma_fundamental_div_mod_converse(
            mag as int,
            HIDDEN_BIT as int,
            (k + 1) as int,
            sig - HIDDEN_BIT,
        );
        mag
    }
}

/// Integers below two to the 53rd are held exactly: what a volume is turned into
/// comes back unchanged.
pub proof fn law_integers_are_exact(n: nat)
    requires
        n < 0x20_0000_0000_0000,
    ensures
        Double::of(n).magnitude() < INFINITE,
        !Double::of(n).spec_negative(),
        Double::of(n).units() == n * Double::one_units(),
        Double::of(n).truncated() == n,
        Double::of(n).nearest_integer() == n,
{
    reveal(Double::of);
    reveal(Double::truncated);
    reveal(Double::nearest_integer);
    lemma_pow2_pos(1074);
    let w = pow2(1074);
    let mag = lemma_short_number_encoding(n, 1074);
    crate::rounding::lemma_nearest_units(mag);
    vstd::arithmetic::div_mod::lemma_fundamental_div_mod_converse(
        (n * w) as int,
        w as int,
        n as int,
        0,
    );
    assert(2 * (n * w) + w == n * (2 * w) + w) by (nonlinear_arith);
    vstd::arithmetic::div_mod::lemma_fundamental_div_mod_converse(
        (2 * (n * w) + w) as int,
        (2 * w) as int,
        n as int,
        w as int,
    );
}

/// The order of such integers is the order of the doubles.
pub proof fn law_integers_keep_order(a: nat, b: nat)
    requires
        a < 0x20_0000_0000_0000,
        b < 0x20_0000_0000_0000,
    ensures
        Double::of(a).less(Double::of(b)) <==> a < b,
        Double::of(a).at_most(Double::of(b)) <==> a <= b,
{
    reveal(Double::less);
    reveal(Double::at_most);
    law_integers_are_exact(a);
    law_integers_are_exact(b);
    lemma_pow2_pos(1074);
    let w = pow2(1074);
    assert(a * w < b * w <==> a < b) by (nonlinear_arith)
        requires
            w > 0,
    ;
    assert(a * w <= b * w <==> a <= b) by (nonlinear_arith)
        requires
            w > 0,
    ;
}

/// The larger of two numbers is at least both, the smaller at most both.
pub proof fn law_larger_and_smaller(a: Double, b: Double)
    requires
        !a.nan(),
        !b.nan(),
    ensures
        a.at_most(a.larger(b)),
        b.at_most(a.larger(b)),
        a.smaller(b).at_most(a),
        a.smaller(b).at_most(b),
{
    reveal(Double::less);
    reveal(Double::at_most);
}

/// The distance between two integers.
pub open spec fn distance(a: int, b: int) -> int {
    if a >= b {
        a - b
    } else {
        b - a
    }
}

proof fn lemma_nearest_even(num: nat, den: nat, j: nat)
    requires
        den > 0,
    ensures
        distance((crate::rounding::nearest_even(num, den) * den) as int, num as int) <= distance(
            (j * den) as int,
            num as int,
        ),
{
    let q = num / den;
    let r = num % den;
    vstd::arithmetic::div_mod::lemma_fundamental_div_mod(num as int, den as int);
    assert(num == q * den + r && (q + 1) * den == q * den + den) by (nonlinear_arith)
        requires
            num == den * q + r,
    ;
    if j <= q {
        assert(j * den <= q * den) by (nonlinear_arith)
            requires
                j <= q,
        ;
    } else {
        assert(j * den >= (q + 1) * den) by (nonlinear_arith)
            requires
                j >= q + 1,
        ;
    }
}

proof fn lemma_binade(num: nat, den: nat) -> (k: nat)
    requires
        den > 0,
    ensures
        num < den * pow2(53 + k),
        k > 0 ==> num >= den * pow2((52 + k) as nat),
    decreases num - den,
{
    lemma2_to64();
    lemma2_to64_rest();
    if num < den * pow2(53) {
        0
    } else {
        assert(num - 2 * den < num - den && num >= 2 * den) by (nonlinear_arith)
            requires
                den > 0,
                num >= den * 0x20_0000_0000_0000,
        ;
        let j = lemma_binade(num, 2 * den);
        lemma_pow2_unfold((54 + j) as nat);
        assert((2 * den) * pow2(53 + j) == den * (2 * pow2(53 + j))) by (nonlinear_arith);
        if j > 0 {
            lemma_pow2_unfold((53 + j) as nat);
            assert((2 * den) * pow2((52 + j) as nat) == den * (2 * pow2((52 + j) as nat)))
                by (nonlinear_arith);
        }
        j + 1
    }
}

/// The units of an encoding that rounding has put together.
proof fn lemma_units_put_together(k: nat, q: nat)
    requires
        q <= 2 * HIDDEN_BIT,
        k > 0 ==> q >= HIDDEN_BIT,
    ensures
        crate::rounding::units_of(k * (HIDDEN_BIT as nat) + q) == q * pow2(k),
{
    let h = HIDDEN_BIT as nat;
    let mag = k * h + q;
    lemma2_to64();
    assert(q * 1 == q);
    if q < h {
    } else if q < 2 * h {
        vstd::arithmetic::div_mod::lemma_fundamental_div_mod_converse(
            mag as int,
            h as int,
            (k + 1) as int,
            q - h,
        );
    } else {
        vstd::arithmetic::div_mod::lemma_fundamental_div_mod_converse(
            mag as int,
            h as int,
            (k + 2) as int,
            0,
        );
        lemma_pow2_unfold((k + 1) as nat);
        assert(h * (2 * pow2(k)) == (2 * h) * pow2(k)) by (nonlinear_arith);
    }
}

/// No double is nearer to `num / den` units than the one it is rounded to, as long as
/// the exponent field holds it.
pub proof fn law_rounding_is_nearest(num: nat, den: nat, other: nat)
    requires
        den > 0,
    ensures
        distance(
            (crate::rounding::units_of(crate::rounding::nearest(num, den)) * den) as int,
            num as int,
        ) <= distance((crate::rounding::units_of(other) * den) as int, num as int),
{
    let h = HIDDEN_BIT as nat;
    let k = lemma_binade(num, den);
    let step = pow2(k);
    let d = den * step;
    let q = crate::rounding::nearest_even(num, d);
    lemma2_to64();
    lemma2_to64_rest();
    lemma_pow2_pos(k);
    lemma_pow2_adds(53, k);
    lemma_pow2_adds(52, k);
    assert(d > 0) by (nonlinear_arith)
        requires
            den > 0,
            step > 0,
            d == den * step,
    ;
    assert(den * pow2(53 + k) == 2 * h * d && den * pow2(52 + k) == h * d) by (nonlinear_arith)
        requires
            pow2(53 + k) == 0x20_0000_0000_0000 * step,
            pow2(52 + k) == 0x10_0000_0000_0000 * step,
            d == den * step,
            h == 0x10_0000_0000_0000,
    ;
    crate::rounding::lemma_nearest_at(num, den, k);
    vstd::arithmetic::div_mod::lemma_fundamental_div_mod(num as int, d as int);
    assert(q <= 2 * h) by {
        assert(num / d < 2 * h) by (nonlinear_arith)
            requires
                num < 2 * h * d,
                d > 0,
                num == d * (num / d) + num % d,
                num % d >= 0,
        ;
    }
    if k > 0 {
        assert(num / d >= h) by (nonlinear_arith)
            requires
                num >= h * d,
                d > 0,
                num == d * (num / d) + num % d,
                num % d < d,
        ;
    }
    lemma_units_put_together(k, q);
    assert((q * step) * den == q * d) by (nonlinear_arith)
        requires
            d == den * step,
    ;
    crate::rounding::lemma_units_parts(other);
    let sig = crate::rounding::significand_of(other);
    let e = crate::rounding::doublings_of(other);
    if e >= k {
        let up = pow2((e - k) as nat);
        lemma_pow2_adds((e - k) as nat, k);
        let j = sig * up;
        assert((sig * pow2(e)) * den == j * d) by (nonlinear_arith)
            requires
                pow2(e) == up * step,
                j == sig * up,
                d == den * step,
        ;
        lemma_nearest_even(num, d, j);
    } else {
        crate::scaled::lemma_pow2_le(e + 1, k);
        lemma_pow2_unfold(e + 1);
        assert((sig * pow2(e)) * den <= h * d) by (nonlinear_arith)
            requires
                sig < 2 * h,
                2 * pow2(e) <= step,
                d == den * step,
        ;
        lemma_nearest_even(num, d, h);
    }
}

/// Rounding does not pass a double: what is at most `n * 2^e` units stays so.
pub proof fn lemma_rounds_to_at_most(num: nat, den: nat, n: nat, e: nat)
    requires
        den > 0,
        n < 0x20_0000_0000_0000,
        53 <= e <= 1074,
        num <= (n * pow2(e)) * den,
    ensures
        crate::rounding::nearest(num, den) < INFINITE,
        crate::rounding::units_of(crate::rounding::nearest(num, den)) <= n * pow2(e),
{
    let other = lemma_short_number_encoding(n, e);
    let mag = crate::rounding::nearest(num, den);
    law_rounding_is_nearest(num, den, other);
    let bound = n * pow2(e);
    let units = crate::rounding::units_of(mag);
    if units > bound {
        assert(units * den > bound * den) by (nonlinear_arith)
            requires
                units > bound,
                den > 0,
        ;
    }
    if mag > other {
        crate::rounding::lemma_units_increase(other, mag);
    }
}

/// Rounding does not pass a double: what is at least `n * 2^e` units stays so.
pub proof fn lemma_rounds_to_at_least(num: nat, den: nat, n: nat, e: nat)
    requires
        den > 0,
        n < 0x20_0000_0000_0000,
        53 <= e <= 1074,
        num >= (n * pow2(e)) * den,
    ensures
        crate::rounding::units_of(crate::rounding::nearest(num, den)) >= n * pow2(e),
{
    let other = lemma_short_number_encoding(n, e);
    law_rounding_is_nearest(num, den, other);
    let bound = n * pow2(e);
    let units = crate::rounding::units_of(crate::rounding::nearest(num, den));
    if units < bound {
        assert(units * den < bound * den) by (nonlinear_arith)
            requires
                units < bound,
                den > 0,
        ;
    }
}

/// Rounding a number below `2^53 * 2^e` units moves it by at most `2^e` units.
pub proof fn lemma_rounding_error(num: nat, den: nat, e: nat)
    requires
        den > 0,
        53 <= e <= 1074,
        num < (0x1F_FFFF_FFFF_FFFF * pow2(e)) * den,
    ensures
        crate::rounding::nearest(num, den) < INFINITE,
        distance(
            (crate::rounding::units_of(crate::rounding::nearest(num, den)) * den) as int,
            num as int,
        ) <= pow2(e) * den,
{
    let step = pow2(e);
    lemma_pow2_pos(e);
    let d = step * den;
    assert(d > 0) by (nonlinear_arith)
        requires
            step > 0,
            den > 0,
            d == step * den,
    ;
    let n = num / d;
    vstd::arithmetic::div_mod::lemma_fundamental_div_mod(num as int, d as int);
    assert(num < 0x1F_FFFF_FFFF_FFFF * d) by (nonlinear_arith)
        requires
            num < (0x1F_FFFF_FFFF_FFFF * step) * den,
            d == step * den,
    ;
    assert(n < 0x20_0000_0000_0000) by (nonlinear_arith)
        requires
            num < 0x1F_FFFF_FFFF_FFFF * d,
            num == d * n + num % d,
            num % d >= 0,
            d > 0,
    ;
    let other = lemma_short_number_encoding(n, e);
    law_rounding_is_nearest(num, den, other);
    assert((n * step) * den == d * n) by (nonlinear_arith)
        requires
            d == step * den,
    ;
    lemma_rounds_to_at_most(num, den, 0x1F_FFFF_FFFF_FFFF, e);
}

} // verus!
