//! Rounding of products and quotients of machine integers by powers of two.
use crate::rounding::{HIDDEN_BIT, INFINITE};
use vstd::prelude::*;
use vstd::arithmetic::power2::*;

verus! {

proof fn lemma_one_shl(t: u128)
    requires
        t < 128,
    ensures
        (1u128 << t) == pow2(t as nat),
    decreases t,
{
    if t == 0 {
        assert((1u128 << 0u128) == 1) by (bit_vector);
        lemma2_to64();
    } else {
        let p: u128 = (t - 1) as u128;
        lemma_one_shl(p);
        assert((1u128 << t) == 2 * (1u128 << p)) by (bit_vector)
            requires
                0 < t < 128,
                p == t - 1,
        ;
        lemma_pow2_unfold(t as nat);
    }
}

/// `2^t`.
pub fn power_of_two(t: u32) -> (r: u128)
    requires
        t < 128,
    ensures
        r == pow2(t as nat),
        r > 0,
{
    proof {
        lemma_one_shl(t as u128);
        lemma_pow2_pos(t as nat);
    }
    1u128 << (t as u128)
}

/// The number of binary digits of `n`.
fn bit_length(n: u128) -> (len: u32)
    requires
        0 < n,
    ensures
        1 <= len <= 128,
        pow2((len - 1) as nat) <= n < pow2(len as nat),
{
    let mut low: u32 = 0;
    let mut high: u32 = 128;
    proof {
        lemma2_to64();
        assert(pow2(128) == 0x1_0000_0000_0000_0000_0000_0000_0000_0000) by {
            lemma_pow2_adds(64, 64);
        }
    }
    while high - low > 1
        invariant
            low < high <= 128,
            pow2(low as nat) <= n < pow2(high as nat),
        decreases high - low,
    {
        let mid: u32 = low + (high - low) / 2;
        if n < power_of_two(mid) {
            high = mid;
        } else {
            low = mid;
        }
    }
    high
}

pub proof fn lemma_pow2_le(a: nat, b: nat)
    requires
        a <= b,
    ensures
        pow2(a) <= pow2(b),
{
    if a < b {
        lemma_pow2_strictly_increases(a, b);
    }
}

/// `n * 2^s`, as the numerator and the denominator of a quotient.
pub open spec fn scaled_num(n: nat, s: int) -> nat {
    n * pow2(
        if s > 0 {
            s as nat
        } else {
            0
        },
    )
}

pub open spec fn scaled_den(s: int) -> nat {
    pow2(
        if s < 0 {
            (-s) as nat
        } else {
            0
        },
    )
}

/// How `n * 2^s` rounds, given the number of binary digits of `n`.
proof fn lemma_round_scaled(n: nat, s: int, len: nat, k: nat)
    requires
        len > 0,
        pow2((len - 1) as nat) <= n < pow2(len),
        k == (if len + s > 53 {
            len + s - 53
        } else {
            0
        }),
    ensures
        k <= s ==> crate::rounding::nearest(scaled_num(n, s), scaled_den(s)) == k * HIDDEN_BIT + n
            * pow2((s - k) as nat),
        k > s ==> crate::rounding::nearest(scaled_num(n, s), scaled_den(s)) == k * HIDDEN_BIT
            + crate::rounding::nearest_even(n, pow2((k - s) as nat)),
        k <= s ==> n * pow2((s - k) as nat) < pow2(53),
        k > s ==> n < pow2(53) * pow2((k - s) as nat),
{
    let a: nat = if s > 0 {
        s as nat
    } else {
        0
    };
    let b: nat = if s < 0 {
        (-s) as nat
    } else {
        0
    };
    let num = scaled_num(n, s);
    let den = scaled_den(s);
    lemma_pow2_pos(a);
    lemma_pow2_pos(b);
    assert(num < pow2(len + a)) by {
        lemma_pow2_adds(len, a);
        assert(n * pow2(a) < pow2(len) * pow2(a)) by (nonlinear_arith)
            requires
                n < pow2(len),
                pow2(a) > 0,
        ;
    }
    lemma_pow2_le(len + a, b + (53 + k));
    lemma_pow2_adds(b, 53 + k);
    if k > 0 {
        let l: nat = (len - 1) as nat;
        lemma_pow2_adds(l, a);
        assert(n * pow2(a) >= pow2(l) * pow2(a)) by (nonlinear_arith)
            requires
                n >= pow2(l),
                pow2(a) > 0,
        ;
        assert(l + a == b + (52 + k));
        lemma_pow2_adds(b, 52 + k);
    }
    crate::rounding::lemma_nearest_at(num, den, k);
    lemma_pow2_adds(b, k);
    if k <= s {
        let e: nat = (s - k) as nat;
        assert(a == e + (b + k));
        lemma_pow2_adds(e, b + k);
        assert(num == (n * pow2(e)) * pow2(b + k)) by (nonlinear_arith)
            requires
                num == n * pow2(a),
                pow2(a) == pow2(e) * pow2(b + k),
        ;
        lemma_pow2_pos(b + k);
        assert(n * pow2(e) >= 0) by (nonlinear_arith)
            requires
                n >= 0,
                pow2(e) >= 0,
        ;
        vstd::arithmetic::div_mod::lemma_fundamental_div_mod_converse(
            num as int,
            pow2(b + k) as int,
            (n * pow2(e)) as int,
            0,
        );
        lemma_pow2_pos(e);
        lemma_pow2_adds(len, e);
        lemma_pow2_le(len + e, 53);
        assert(n * pow2(e) < pow2(len) * pow2(e)) by (nonlinear_arith)
            requires
                n < pow2(len),
                pow2(e) > 0,
        ;
    } else {
        let t: nat = (k - s) as nat;
        assert(b + k == a + t);
        lemma_pow2_adds(a, t);
        lemma_pow2_pos(t);
        assert(n * pow2(a) == pow2(a) * n) by (nonlinear_arith);
        crate::rounding::lemma_nearest_even_scale(pow2(a), n, pow2(t));
        lemma_pow2_adds(53, t);
        lemma_pow2_le(len, 53 + t);
    }
}

/// The encoding of the magnitude `n * 2^s` units.
pub fn round_scaled(n: u128, s: i32) -> (mag: u64)
    requires
        n < 0x8000_0000_0000_0000_0000_0000_0000_0000,
        -5000 <= s <= 5000,
    ensures
        mag == crate::rounding::round_magnitude(scaled_num(n as nat, s as int), scaled_den(s as int)),
{
    proof {
        lemma2_to64();
        lemma2_to64_rest();
        lemma_pow2_pos(if s < 0 { (-s) as nat } else { 0 });
    }
    if n == 0 {
        proof {
            assert(scaled_num(0, s as int) == 0) by (nonlinear_arith);
            vstd::arithmetic::div_mod::lemma_fundamental_div_mod_converse(
                0,
                scaled_den(s as int) as int,
                0,
                0,
            );
        }
        return 0;
    }
    let len: i32 = bit_length(n) as i32;
    let k: i32 = if len + s > 53 {
        len + s - 53
    } else {
        0
    };
    proof {
        lemma_round_scaled(n as nat, s as int, len as nat, k as nat);
    }
    if k >= 2047 {
        return INFINITE;
    }
    let m: u64 = if k <= s {
        assert(s - k < 53);
        let p: u128 = power_of_two((s - k) as u32);
        (n * p) as u64
    } else if k - s >= 128 {
        proof {
            lemma_pow2_adds(64, 64);
            lemma_pow2_le(128, (k - s) as nat);
            vstd::arithmetic::div_mod::lemma_fundamental_div_mod_converse(
                n as int,
                pow2((k - s) as nat) as int,
                0,
                n as int,
            );
        }
        0
    } else {
        let d: u128 = power_of_two((k - s) as u32);
        let q: u128 = n / d;
        let r: u128 = n % d;
        assert(n < 0x20_0000_0000_0000 * d);
        assert(q < 0x20_0000_0000_0000) by (nonlinear_arith)
            requires
                q == n / d,
                n < 0x20_0000_0000_0000 * d,
                d > 0,
        ;
        if r < d - r || (r == d - r && q % 2 == 0) {
            q as u64
        } else {
            (q + 1) as u64
        }
    };
    assert(m <= 0x20_0000_0000_0000);
    let mag: u64 = k as u64 * HIDDEN_BIT + m;
    if mag < INFINITE {
        mag
    } else {
        INFINITE
    }
}

/// A quotient with many integer digits rounds as its integer part and one more
/// bit, set where a remainder was cut off.
proof fn lemma_round_cut_quotient(n: nat, d: nat, e: int)
    requires
        d > 0,
        n / d >= pow2(60),
    ensures
        crate::rounding::nearest(scaled_num(n, e), d * scaled_den(e)) == crate::rounding::nearest(
            scaled_num(
                2 * (n / d) + (if n % d > 0 {
                    1nat
                } else {
                    0nat
                }),
                e - 1,
            ),
            scaled_den(e - 1),
        ),
{
    let q = n / d;
    let sticky: nat = if n % d > 0 {
        1
    } else {
        0
    };
    let p = 2 * q + sticky;
    lemma_pow2_pos(60);
    let len = lemma_has_length(p);
    lemma_pow2_unfold(61);
    if len <= 61 {
        lemma_pow2_le(len, 61);
    }
    let s = e - 1;
    let k: nat = if len + s > 53 {
        (len + s - 53) as nat
    } else {
        0
    };
    lemma_round_scaled(p, s, len, k);
    let t: nat = (k - s) as nat;
    assert(t >= 9);
    let a: nat = if e > 0 {
        e as nat
    } else {
        0
    };
    let b: nat = if e < 0 {
        (-e) as nat
    } else {
        0
    };
    let num = scaled_num(n, e);
    let den = d * scaled_den(e);
    lemma_pow2_pos(a);
    lemma_pow2_pos(b);
    assert(den > 0) by (nonlinear_arith)
        requires
            den == d * pow2(b),
            d > 0,
            pow2(b) > 0,
    ;
    vstd::arithmetic::div_mod::lemma_fundamental_div_mod(n as int, d as int);
    // The quotient lies below 2^(53 + k - e).
    let j: nat = (53 + k - e) as nat;
    lemma_pow2_unfold(j + 1);
    lemma_pow2_le(len, j + 1);
    assert(q < pow2(j));
    assert(num < den * pow2(53 + k)) by {
        assert(n < d * pow2(j)) by (nonlinear_arith)
            requires
                n < d * q + d,
                q + 1 <= pow2(j),
                d > 0,
        ;
        assert(j + a == b + (53 + k));
        lemma_pow2_adds(j, a);
        lemma_pow2_adds(b, 53 + k);
        assert(n * pow2(a) < (d * pow2(b)) * pow2(53 + k)) by (nonlinear_arith)
            requires
                n < d * pow2(j),
                pow2(a) > 0,
                pow2(j) * pow2(a) == pow2(b) * pow2(53 + k),
        ;
    }
    if k > 0 {
        let l: nat = (52 + k - e) as nat;
        assert(len - 1 == l + 1);
        lemma_pow2_unfold(l + 1);
        assert(q >= pow2(l));
        assert(n >= d * pow2(l)) by (nonlinear_arith)
            requires
                n >= d * q,
                q >= pow2(l),
                d > 0,
        ;
        assert(l + a == b + (52 + k));
        lemma_pow2_adds(l, a);
        lemma_pow2_adds(b, 52 + k);
        assert(n * pow2(a) >= (d * pow2(b)) * pow2(52 + k)) by (nonlinear_arith)
            requires
                n >= d * pow2(l),
                pow2(a) > 0,
                pow2(l) * pow2(a) == pow2(b) * pow2(52 + k),
        ;
    }
    crate::rounding::lemma_nearest_at(num, den, k);
    let h: nat = (t - 2) as nat;
    lemma_pow2_unfold(t);
    lemma_pow2_unfold((t - 1) as nat);
    assert(b + k == a + (t - 1));
    lemma_pow2_adds(b, k);
    lemma_pow2_adds(a, (t - 1) as nat);
    let step = 2 * pow2(h);
    lemma_pow2_pos(h);
    assert(den * pow2(k) == pow2(a) * (d * step)) by (nonlinear_arith)
        requires
            den == d * pow2(b),
            pow2(b) * pow2(k) == pow2(a) * step,
    ;
    assert(num == pow2(a) * n) by (nonlinear_arith)
        requires
            num == n * pow2(a),
    ;
    assert(d * step > 0) by (nonlinear_arith)
        requires
            d > 0,
            step > 0,
    ;
    crate::rounding::lemma_nearest_even_scale(pow2(a), n, d * step);
    crate::rounding::lemma_nearest_even_sticky(n, d, pow2(h));
}

/// Every positive number has a number of binary digits.
pub proof fn lemma_has_length(n: nat) -> (len: nat)
    requires
        n > 0,
    ensures
        len > 0,
        pow2((len - 1) as nat) <= n < pow2(len),
    decreases n,
{
    lemma2_to64();
    if n == 1 {
        1
    } else {
        let l = lemma_has_length(n / 2);
        lemma_pow2_unfold(l);
        lemma_pow2_unfold(l + 1);
        l + 1
    }
}

/// The encoding of the magnitude `n / d * 2^s` units.
pub fn round_quotient(n: u64, d: u64, s: i32) -> (mag: u64)
    requires
        d > 0,
        -4000 <= s <= 4000,
    ensures
        mag == crate::rounding::round_magnitude(
            scaled_num(n as nat, s as int),
            d as nat * scaled_den(s as int),
        ),
{
    proof {
        lemma2_to64();
        lemma2_to64_rest();
        lemma_pow2_pos(if s < 0 { (-s) as nat } else { 0 });
    }
    if n == 0 {
        proof {
            assert(scaled_num(0, s as int) == 0) by (nonlinear_arith);
            assert(d as nat * scaled_den(s as int) > 0) by (nonlinear_arith)
                requires
                    d > 0,
                    scaled_den(s as int) > 0,
            ;
            vstd::arithmetic::div_mod::lemma_fundamental_div_mod_converse(
                0,
                (d as nat * scaled_den(s as int)) as int,
                0,
                0,
            );
        }
        return 0;
    }
    let len: u32 = bit_length(n as u128);
    proof {
        if len > 64 {
            lemma_pow2_le(64, (len - 1) as nat);
        }
    }
    let z: u32 = 125 - len;
    let scale: u128 = power_of_two(z);
    proof {
        lemma_pow2_adds(len as nat, z as nat);
        lemma_pow2_adds((len - 1) as nat, z as nat);
        lemma_pow2_adds(61, 64);
        lemma_pow2_adds(60, 64);
        assert(n * pow2(z as nat) < pow2(125) && n * pow2(z as nat) >= pow2(124)) by (nonlinear_arith)
            requires
                pow2((len - 1) as nat) <= n < pow2(len as nat),
                pow2(z as nat) > 0,
                pow2(len as nat) * pow2(z as nat) == pow2(125),
                pow2((len - 1) as nat) * pow2(z as nat) == pow2(124),
        ;
    }
    let num: u128 = n as u128 * scale;
    let q: u128 = num / (d as u128);
    let r: u128 = num % (d as u128);
    proof {
        let e = s - z;
        assert(q >= pow2(60)) by (nonlinear_arith)
            requires
                q == num / (d as u128),
                num >= pow2(60) * pow2(64),
                0 < d < pow2(64),
        ;
        lemma_round_cut_quotient(num as nat, d as nat, e);
        lemma_scaled_shift(n as nat, d as nat, z as nat, s as int);
    }
    let cut: u128 = if r > 0 {
        2 * q + 1
    } else {
        2 * q
    };
    round_scaled(cut, s - z as i32 - 1)
}

/// A factor `2^z` may be moved between the number and the exponent.
pub proof fn lemma_scaled_shift(n: nat, d: nat, z: nat, s: int)
    requires
        d > 0,
    ensures
        crate::rounding::nearest(scaled_num(n, s), d * scaled_den(s)) == crate::rounding::nearest(
            scaled_num(n * pow2(z), s - z),
            d * scaled_den(s - z),
        ),
{
    let e = s - z;
    let a1: nat = if s > 0 { s as nat } else { 0 };
    let b1: nat = if s < 0 { (-s) as nat } else { 0 };
    let a2: nat = if e > 0 { e as nat } else { 0 };
    let b2: nat = if e < 0 { (-e) as nat } else { 0 };
    lemma_pow2_pos(b1);
    lemma_pow2_pos(b2);
    assert(a1 + b2 == z + (a2 + b1));
    lemma_pow2_adds(a1, b2);
    lemma_pow2_adds(z, a2 + b1);
    lemma_pow2_adds(a2, b1);
    assert((n * pow2(a1)) * (d * pow2(b2)) == ((n * pow2(z)) * pow2(a2)) * (d * pow2(b1)))
        by (nonlinear_arith)
        requires
            pow2(a1) * pow2(b2) == pow2(z) * (pow2(a2) * pow2(b1)),
    ;
    assert(d * pow2(b1) > 0 && d * pow2(b2) > 0) by (nonlinear_arith)
        requires
            d > 0,
            pow2(b1) > 0,
            pow2(b2) > 0,
    ;
    crate::rounding::lemma_nearest_same_quotient(
        n * pow2(a1),
        d * pow2(b1),
        (n * pow2(z)) * pow2(a2),
        d * pow2(b2),
    );
}

} // verus!
