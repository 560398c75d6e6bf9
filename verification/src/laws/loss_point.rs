//! Where in a lost packet the loss rate passed what is tolerated.
use crate::double::Double;
use crate::flow::Flow;
use crate::packet::BbrRateSample;
use crate::params::loss_thresh;
use crate::rounding::INFINITE;
use vstd::arithmetic::power2::*;
use vstd::prelude::*;

verus! {

/// A finite number that is not negative.
spec fn plain(d: Double) -> bool {
    d.magnitude() < INFINITE && !d.spec_negative()
}

/// The relations between the grids that the numbers below lie on.
proof fn lemma_grids()
    ensures
        pow2(1074) == 4 * pow2(1072),
        pow2(1074) == 32 * pow2(1069),
        pow2(1074) == 64 * pow2(1068),
        pow2(1074) == 256 * pow2(1066),
        pow2(1074) == 0x20_0000_0000_0000 * pow2(1021),
        pow2(1069) == 8 * pow2(1066),
        pow2(1021) > 0,
        pow2(1066) > 0,
        pow2(1072) > 0,
{
    lemma2_to64();
    lemma2_to64_rest();
    lemma_pow2_adds(2, 1072);
    lemma_pow2_adds(5, 1069);
    lemma_pow2_adds(6, 1068);
    lemma_pow2_adds(8, 1066);
    lemma_pow2_adds(53, 1021);
    lemma_pow2_adds(3, 1066);
    lemma_pow2_pos(1021);
    lemma_pow2_pos(1066);
    lemma_pow2_pos(1072);
}

proof fn lemma_rounded_plain(num: nat, den: nat)
    requires
        crate::rounding::nearest(num, den) < INFINITE,
    ensures
        plain(Double::rounded(false, num, den)),
        Double::rounded(false, num, den).units() == crate::rounding::units_of(
            crate::rounding::nearest(num, den),
        ),
{
}

/// The tolerated loss rate lies between 1/64 and 1/32.
proof fn lemma_thresh()
    ensures
        plain(loss_thresh()),
        pow2(1068) <= loss_thresh().units() <= pow2(1069),
{
    reveal(Double::of_ratio);
    lemma_grids();
    let w = pow2(1074);
    assert(1 * pow2(1069) == pow2(1069) && 1 * pow2(1068) == pow2(1068));
    crate::laws::doubles::lemma_rounds_to_at_most(2 * w, 100, 1, 1069);
    crate::laws::doubles::lemma_rounds_to_at_least(2 * w, 100, 1, 1068);
    lemma_rounded_plain(2 * w, 100);
}

/// Factors may change places.
proof fn lemma_product_commutes(a: Double, b: Double)
    ensures
        a.product(b) == b.product(a),
{
    reveal(Double::product);
    assert(a.units() * b.units() == b.units() * a.units()) by (nonlinear_arith);
}

/// The tolerated share of `n` bytes, as close as rounding keeps it.
proof fn lemma_tolerated_share(n: nat)
    requires
        n < 0x4_0000_0000_0000,
    ensures
        plain(loss_thresh().product(Double::of(n))),
        crate::laws::doubles::distance(
            loss_thresh().product(Double::of(n)).units() as int,
            (loss_thresh().units() * n) as int,
        ) <= pow2(1066),
        loss_thresh().units() * n <= 0x1F_FFFF_FFFF_FFF8 * pow2(1066),
{
    reveal(Double::product);
    lemma_thresh();
    lemma_grids();
    crate::laws::doubles::law_integers_are_exact(n);
    let t = loss_thresh().units();
    let w = pow2(1074);
    let g = pow2(1066);
    let num = t * (n * w);
    assert(t * n <= 0x1F_FFFF_FFFF_FFF8 * g) by (nonlinear_arith)
        requires
            t <= 8 * g,
            n <= 0x3_FFFF_FFFF_FFFF,
    ;
    assert(num == (t * n) * w) by (nonlinear_arith)
        requires
            num == t * (n * w),
    ;
    assert(num < (0x1F_FFFF_FFFF_FFFF * g) * w) by (nonlinear_arith)
        requires
            num == (t * n) * w,
            t * n <= 0x1F_FFFF_FFFF_FFF8 * g,
            g > 0,
            w > 0,
    ;
    crate::laws::doubles::lemma_rounding_error(num, w, 1066);
    lemma_rounded_plain(num, w);
    let u = crate::rounding::units_of(crate::rounding::nearest(num, w));
    assert(crate::laws::doubles::distance(u as int, (t * n) as int) <= g) by (nonlinear_arith)
        requires
            crate::laws::doubles::distance((u * w) as int, ((t * n) * w) as int) <= g * w,
            w > 0,
    ;
}

proof fn lemma_opposite(d: Double)
    requires
        plain(d),
    ensures
        d.opposite().magnitude() == d.magnitude(),
        d.opposite().spec_negative(),
        d.opposite().signed_units() == -(d.units() as int),
{
}

/// A difference that is not negative, as close as rounding on the grid `2^e` keeps it.
proof fn lemma_difference(a: Double, b: Double, e: nat)
    requires
        plain(a),
        plain(b),
        b.units() <= a.units(),
        53 <= e <= 1074,
        a.units() - b.units() < 0x1F_FFFF_FFFF_FFFF * pow2(e),
    ensures
        plain(a.difference(b)),
        crate::laws::doubles::distance(
            a.difference(b).units() as int,
            a.units() - b.units(),
        ) <= pow2(e),
{
    reveal(Double::sum);
    lemma_opposite(b);
    lemma_pow2_pos(e);
    let total = (a.units() - b.units()) as nat;
    assert(total * 1 == total);
    assert(pow2(e) * 1 == pow2(e));
    assert((0x1F_FFFF_FFFF_FFFF * pow2(e)) * 1 == 0x1F_FFFF_FFFF_FFFF * pow2(e));
    if total > 0 {
        crate::laws::doubles::lemma_rounding_error(total, 1, e);
        lemma_rounded_plain(total, 1);
        let u = crate::rounding::units_of(crate::rounding::nearest(total, 1));
        assert(u * 1 == u);
    }
}

/// The share of the packet that was lost when the loss rate passed what is tolerated is
/// at most the packet, but for a fraction of a byte.
proof fn lemma_share_bound(t: nat, ip: nat, lp: nat, size: nat, d: nat, s: nat)
    requires
        pow2(1068) <= t <= pow2(1069),
        size < 0x4_0000_0000_0000,
        d <= t * ip + 2 * pow2(1066) - lp * pow2(1074),
        t * (ip + size) - pow2(1066) <= (lp + size) * pow2(1074),
        crate::laws::doubles::distance(s as int, pow2(1074) - t) <= pow2(1021),
    ensures
        d * pow2(1074) <= ((4 * size + 1) * pow2(1072)) * s,
{
    lemma_grids();
    let w = pow2(1074);
    let v = pow2(1072);
    let g = pow2(1066);
    let h = pow2(1021);
    assert(t * (ip + size) == t * ip + t * size && (lp + size) * w == lp * w + size * w)
        by (nonlinear_arith);
    let rest = (w - t) as nat;
    assert(size * rest == size * w - t * size) by (nonlinear_arith)
        requires
            rest == w - t,
    ;
    assert(d <= size * rest + 3 * g);
    let low = (rest - h) as nat;
    assert((4 * size + 1) * s >= (4 * size + 1) * low) by (nonlinear_arith)
        requires
            s >= low,
    ;
    assert((4 * size + 1) * low == 4 * (size * rest) - 4 * (size * h) + low) by (nonlinear_arith)
        requires
            low == rest - h,
    ;
    assert(4 * (size * h) <= 0x10_0000_0000_0000 * h) by (nonlinear_arith)
        requires
            size < 0x4_0000_0000_0000,
    ;
    assert(4 * d <= (4 * size + 1) * s);
    assert(d * w == (4 * d) * v) by (nonlinear_arith)
        requires
            w == 4 * v,
    ;
    assert((4 * d) * v <= ((4 * size + 1) * s) * v) by (nonlinear_arith)
        requires
            4 * d <= (4 * size + 1) * s,
    ;
    assert(((4 * size + 1) * s) * v == ((4 * size + 1) * v) * s) by (nonlinear_arith);
}

/// A sum of `ip` bytes and at most `size` and a quarter lies between `ip` and
/// `ip + size` whole bytes.
proof fn lemma_point_bound(ip: nat, size: nat, share: Double)
    requires
        ip + size < 0x4_0000_0000_0000,
        plain(share),
        share.units() <= (4 * size + 1) * pow2(1072),
    ensures
        ip <= Double::of(ip).sum(share).truncated() <= ip + size,
{
    reveal(Double::sum);
    reveal(Double::truncated);
    lemma_grids();
    crate::laws::doubles::law_integers_are_exact(ip);
    let w = pow2(1074);
    let v = pow2(1072);
    let total = ip * w + share.units();
    let most = (4 * (ip + size) + 1) as nat;
    assert(most * v == ip * w + (4 * size + 1) * v) by (nonlinear_arith)
        requires
            most == 4 * (ip + size) + 1,
            w == 4 * v,
    ;
    assert((most * v) * 1 == most * v && (ip * w) * 1 == ip * w);
    let point = Double::of(ip).sum(share);
    if total > 0 {
        crate::laws::doubles::lemma_rounds_to_at_most(total, 1, most, 1072);
        crate::laws::doubles::lemma_rounds_to_at_least(total, 1, ip, 1074);
        lemma_rounded_plain(total, 1);
        assert(point == Double::rounded(false, total, 1));
    } else {
        assert(ip * w == 0);
        assert(point == Double::encoded(false, 0));
        assert(point.units() == 0);
    }
    let u = point.units();
    assert(ip * w <= u <= most * v);
    let q = u / w;
    vstd::arithmetic::div_mod::lemma_fundamental_div_mod(u as int, w as int);
    assert(q >= ip) by (nonlinear_arith)
        requires
            u == w * q + u % w,
            0 <= u % w < w,
            ip * w <= u,
            w > 0,
    ;
    let last = (ip + size) as nat;
    assert(q <= last) by (nonlinear_arith)
        requires
            u == w * q + u % w,
            0 <= u % w,
            u <= (4 * last + 1) * v,
            w == 4 * v,
            v > 0,
    ;
}

/// Where the loss was tolerated before a packet and too high with it, the point at which
/// the loss rate passed what is tolerated lies inside the packet.
pub proof fn law_loss_point_lies_in_packet(f: Flow, rs: BbrRateSample, size: u64)
    requires
        f.rs == Some(rs),
        size <= rs.tx_in_flight < 0x4_0000_0000_0000,
        size <= rs.lost < 0x4_0000_0000_0000,
        f.inflight_too_high(),
        !(Flow {
            rs: Some(
                BbrRateSample {
                    tx_in_flight: (rs.tx_in_flight - size) as u64,
                    lost: (rs.lost - size) as u64,
                    ..rs
                },
            ),
            ..f
        }).inflight_too_high(),
    ensures
        rs.tx_in_flight - size <= f.loss_point(size) <= rs.tx_in_flight,
{
    let t = loss_thresh();
    let ip = (rs.tx_in_flight - size) as nat;
    let lp = (rs.lost - size) as nat;
    let tx = rs.tx_in_flight as nat;
    let lost = rs.lost as nat;
    let w = pow2(1074);
    lemma_grids();
    lemma_thresh();
    lemma_tolerated_share(ip);
    lemma_tolerated_share(tx);
    lemma_product_commutes(t, Double::of(ip));
    lemma_product_commutes(t, Double::of(tx));
    crate::laws::doubles::law_integers_are_exact(lp);
    crate::laws::doubles::law_integers_are_exact(lost);
    crate::laws::doubles::law_integers_are_exact(1);
    assert(1 * w == w);
    reveal(Double::less);
    let before = t.product(Double::of(ip));
    let after = t.product(Double::of(tx));
    assert(after.units() < lost * w);
    assert(before.units() >= lp * w);
    lemma_difference(before, Double::of(lp), 1066);
    let excess = before.difference(Double::of(lp));
    lemma_difference(Double::of(1), t, 1021);
    let rest = Double::of(1).difference(t);
    lemma_share_bound(t.units(), ip, lp, size as nat, excess.units(), rest.units());
    assert(rest.units() > 0);
    reveal(Double::quotient);
    let share = excess.quotient(rest);
    crate::laws::doubles::lemma_rounds_to_at_most(
        excess.units() * w,
        rest.units(),
        (4 * size + 1) as nat,
        1072,
    );
    lemma_rounded_plain(excess.units() * w, rest.units());
    assert(!rest.zero());
    lemma_point_bound(ip, size as nat, share);
}

} // verus!
