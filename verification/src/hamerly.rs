use vstd::prelude::*;

use crate::distance::{
    dist_sq, find_closest_centroid, has_converged, int_sqrt_ceil, int_sqrt_floor,
    lemma_closest_unique, lemma_dist_sq_range, min_sibling_distance, spec_min_sibling,
    squared_distance,
};
use crate::engine::{
    aggregate_pass, assign_pass, cluster_count, spec_assign, spec_engine_result, spec_iterate,
    spec_update, update_from_aggregates,
};
use crate::types::{all_in_range, Color4, CHANNEL_MAX, COORD_MAX, MAX_POINTS};

verus! {

/// Cap on the per-point upper bounds. Any true distance between vectors
/// with 16-bit channels is below it, so capping a bound here keeps it a
/// valid upper bound while keeping the arithmetic small.
pub const BOUND_CAP: u64 = 0x4_0000;

/// Squared distances stay under the squared cap, so the cap itself is
/// always a valid upper bound on a distance.
proof fn lemma_cap_is_upper_bound(x: Color4, y: Color4)
    requires
        x.in_range(COORD_MAX as int),
        y.in_range(COORD_MAX as int),
    ensures
        dist_sq(x, y) <= (BOUND_CAP as int) * (BOUND_CAP as int),
{
    lemma_dist_sq_range(x, y);
    assert(0x4_0000_0000 < (BOUND_CAP as int) * (BOUND_CAP as int)) by (nonlinear_arith);
}

/// Soundness of the pruning test. If `u` bounds the distance from point
/// `x` to its assigned centroid `ca` from above, `2 * s` bounds the
/// distance from `ca` to the sibling `cl` from below, and `u < s`
/// strictly, then `cl` is strictly farther from `x` than `ca` is — so
/// the assignment to `ca` is still exact and no distance need be
/// computed. The argument needs only that sums of squares are
/// nonnegative: from `(2(x-ca) - (cl-ca))^2 >= 0` componentwise.
pub proof fn lemma_prune_strict(x: Color4, ca: Color4, cl: Color4, u: int, s: int)
    requires
        0 <= u,
        0 <= s,
        dist_sq(x, ca) <= u * u,
        4 * s * s <= dist_sq(ca, cl),
        u < s,
    ensures
        dist_sq(x, cl) > dist_sq(x, ca),
{
    let ur = x.r - ca.r;
    let ug = x.g - ca.g;
    let ub = x.b - ca.b;
    let ua = x.a - ca.a;
    let vr = cl.r - ca.r;
    let vg = cl.g - ca.g;
    let vb = cl.b - ca.b;
    let va = cl.a - ca.a;
    let aa = ur * ur + ug * ug + ub * ub + ua * ua;
    let vv = vr * vr + vg * vg + vb * vb + va * va;
    let dot = ur * vr + ug * vg + ub * vb + ua * va;
    assert(aa == dist_sq(x, ca));
    assert(vv == dist_sq(ca, cl)) by (nonlinear_arith)
        requires
            vv == vr * vr + vg * vg + vb * vb + va * va,
            vr == cl.r - ca.r,
            vg == cl.g - ca.g,
            vb == cl.b - ca.b,
            va == cl.a - ca.a,
            dist_sq(ca, cl) == (ca.r - cl.r) * (ca.r - cl.r) + (ca.g - cl.g) * (ca.g - cl.g) + (
            ca.b - cl.b) * (ca.b - cl.b) + (ca.a - cl.a) * (ca.a - cl.a);
    assert(dist_sq(x, cl) == aa - 2 * dot + vv) by (nonlinear_arith)
        requires
            aa == ur * ur + ug * ug + ub * ub + ua * ua,
            vv == vr * vr + vg * vg + vb * vb + va * va,
            dot == ur * vr + ug * vg + ub * vb + ua * va,
            dist_sq(x, cl) == (ur - vr) * (ur - vr) + (ug - vg) * (ug - vg) + (ub - vb) * (ub - vb)
                + (ua - va) * (ua - va);
    assert(4 * aa - 4 * dot + vv >= 0) by (nonlinear_arith)
        requires
            aa == ur * ur + ug * ug + ub * ub + ua * ua,
            vv == vr * vr + vg * vg + vb * vb + va * va,
            dot == ur * vr + ug * vg + ub * vb + ua * va;
    assert(u * u < s * s) by (nonlinear_arith)
        requires
            0 <= u < s;
    assert(4 * s * s == 4 * (s * s)) by (nonlinear_arith);
    assert(4 * aa < vv);
    assert(2 * dot < vv);
}

/// After a centroid moves, growing a point's bound by the displacement
/// keeps it a valid upper bound: the triangle inequality, phrased over
/// squared integer quantities. From `(d(x-co) + u(cn-co))^2 >= 0`
/// componentwise.
#[verifier::rlimit(30)]
pub proof fn lemma_move_bound(x: Color4, co: Color4, cn: Color4, u: int, d: int)
    requires
        0 <= u,
        0 <= d,
        dist_sq(x, co) <= u * u,
        dist_sq(co, cn) <= d * d,
    ensures
        dist_sq(x, cn) <= (u + d) * (u + d),
{
    let ur = x.r - co.r;
    let ug = x.g - co.g;
    let ub = x.b - co.b;
    let ua = x.a - co.a;
    let wr = cn.r - co.r;
    let wg = cn.g - co.g;
    let wb = cn.b - co.b;
    let wa = cn.a - co.a;
    let aa = ur * ur + ug * ug + ub * ub + ua * ua;
    let ww = wr * wr + wg * wg + wb * wb + wa * wa;
    let dot = ur * wr + ug * wg + ub * wb + ua * wa;
    assert(aa == dist_sq(x, co));
    assert(ww == dist_sq(co, cn)) by (nonlinear_arith)
        requires
            ww == wr * wr + wg * wg + wb * wb + wa * wa,
            wr == cn.r - co.r,
            wg == cn.g - co.g,
            wb == cn.b - co.b,
            wa == cn.a - co.a,
            dist_sq(co, cn) == (co.r - cn.r) * (co.r - cn.r) + (co.g - cn.g) * (co.g - cn.g) + (
            co.b - cn.b) * (co.b - cn.b) + (co.a - cn.a) * (co.a - cn.a);
    assert(aa >= 0 && ww >= 0) by (nonlinear_arith)
        requires
            aa == ur * ur + ug * ug + ub * ub + ua * ua,
            ww == wr * wr + wg * wg + wb * wb + wa * wa;
    assert(dist_sq(x, cn) == aa - 2 * dot + ww) by (nonlinear_arith)
        requires
            aa == ur * ur + ug * ug + ub * ub + ua * ua,
            ww == wr * wr + wg * wg + wb * wb + wa * wa,
            dot == ur * wr + ug * wg + ub * wb + ua * wa,
            dist_sq(x, cn) == (ur - wr) * (ur - wr) + (ug - wg) * (ug - wg) + (ub - wb) * (ub - wb)
                + (ua - wa) * (ua - wa);
    if u == 0 {
        assert(aa == 0);
        assert(ur == 0 && ug == 0 && ub == 0 && ua == 0) by (nonlinear_arith)
            requires
                ur * ur + ug * ug + ub * ub + ua * ua == 0;
        assert(dot == 0);
        assert(dist_sq(x, cn) == ww);
        assert((u + d) * (u + d) >= d * d) by (nonlinear_arith)
            requires
                u == 0;
    } else if d == 0 {
        assert(ww == 0);
        assert(wr == 0 && wg == 0 && wb == 0 && wa == 0) by (nonlinear_arith)
            requires
                wr * wr + wg * wg + wb * wb + wa * wa == 0;
        assert(dot == 0);
        assert(dist_sq(x, cn) == aa);
        assert((u + d) * (u + d) >= u * u) by (nonlinear_arith)
            requires
                d == 0;
    } else {
        assert(d * d * (ur * ur) + 2 * (u * d) * (ur * wr) + u * u * (wr * wr) >= 0)
            by (nonlinear_arith);
        assert(d * d * (ug * ug) + 2 * (u * d) * (ug * wg) + u * u * (wg * wg) >= 0)
            by (nonlinear_arith);
        assert(d * d * (ub * ub) + 2 * (u * d) * (ub * wb) + u * u * (wb * wb) >= 0)
            by (nonlinear_arith);
        assert(d * d * (ua * ua) + 2 * (u * d) * (ua * wa) + u * u * (wa * wa) >= 0)
            by (nonlinear_arith);
        assert(d * d * aa == d * d * (ur * ur) + d * d * (ug * ug) + d * d * (ub * ub) + d * d * (
        ua * ua)) by (nonlinear_arith)
            requires
                aa == ur * ur + ug * ug + ub * ub + ua * ua;
        assert(u * u * ww == u * u * (wr * wr) + u * u * (wg * wg) + u * u * (wb * wb) + u * u * (
        wa * wa)) by (nonlinear_arith)
            requires
                ww == wr * wr + wg * wg + wb * wb + wa * wa;
        assert(2 * u * d * dot == 2 * (u * d) * (ur * wr) + 2 * (u * d) * (ug * wg) + 2 * (u * d)
            * (ub * wb) + 2 * (u * d) * (ua * wa)) by (nonlinear_arith)
            requires
                dot == ur * wr + ug * wg + ub * wb + ua * wa;
        assert(d * d * aa + 2 * u * d * dot + u * u * ww >= 0);
        let p = u * d;
        assert(d * d * aa <= p * p) by (nonlinear_arith)
            requires
                0 <= aa <= u * u,
                d >= 1,
                u >= 1,
                p == u * d;
        assert(u * u * ww <= p * p) by (nonlinear_arith)
            requires
                0 <= ww <= d * d,
                d >= 1,
                u >= 1,
                p == u * d;
        assert(2 * u * d * dot == 2 * p * dot) by (nonlinear_arith)
            requires
                p == u * d;
        assert(p >= 1) by (nonlinear_arith)
            requires
                u >= 1,
                d >= 1,
                p == u * d;
        assert(2 * p * dot >= -(p * p) - (p * p));
        assert(dot >= -p) by (nonlinear_arith)
            requires
                p >= 1,
                2 * p * dot >= -(p * p) - (p * p);
        assert((u + d) * (u + d) == u * u + 2 * p + d * d) by (nonlinear_arith)
            requires
                p == u * d;
        assert(dist_sq(x, cn) <= u * u + 2 * p + d * d);
    }
}

/// Per-cluster pruning radii: `s[j]` is at most half the distance from
/// centroid `j` to its nearest sibling (the whole cap when `j` has no
/// sibling).
fn compute_radii(cs: &Vec<Color4>) -> (s: Vec<u64>)
    requires
        all_in_range(cs@, COORD_MAX as int),
    ensures
        s.len() == cs.len(),
        forall|j: int| 0 <= j < s.len() ==> #[trigger] s@[j] <= BOUND_CAP,
        forall|j: int, l: int|
            0 <= j < cs.len() && 0 <= l < cs.len() && l != j ==> 4 * (#[trigger] s@[j]) * s@[j]
                <= dist_sq(cs@[j], #[trigger] cs@[l]),
{
    let mut s: Vec<u64> = Vec::new();
    let mut j: usize = 0;
    while j < cs.len()
        invariant
            0 <= j <= cs.len(),
            all_in_range(cs@, COORD_MAX as int),
            s.len() == j,
            forall|l: int| 0 <= l < j ==> #[trigger] s@[l] <= BOUND_CAP,
            forall|j2: int, l: int|
                0 <= j2 < j && 0 <= l < cs.len() && l != j2 ==> 4 * (#[trigger] s@[j2]) * s@[j2]
                    <= dist_sq(cs@[j2], #[trigger] cs@[l]),
        decreases cs.len() - j,
    {
        let m = min_sibling_distance(cs, j);
        proof {
            crate::distance::lemma_sibling_prefix(cs@, j as int, cs@.len() as int);
        }
        if m >= 0x4_0000_0000 {
            proof {
                assert forall|l: int| 0 <= l < cs@.len() && l != j implies 4 * (BOUND_CAP as int) * (
                BOUND_CAP as int) <= dist_sq(cs@[j as int], #[trigger] cs@[l]) by {
                    lemma_dist_sq_range(cs@[j as int], cs@[l]);
                    assert(spec_min_sibling(cs@, j as int) <= dist_sq(cs@[j as int], cs@[l]));
                    assert(dist_sq(cs@[j as int], cs@[l]) < 0x4_0000_0000);
                }
            }
            s.push(BOUND_CAP);
        } else {
            let r = int_sqrt_floor(m);
            let half = r / 2;
            proof {
                assert(2 * ((r as int) / 2) <= r as int);
                assert forall|l: int| 0 <= l < cs@.len() && l != j implies 4 * (half as int) * (
                half as int) <= dist_sq(cs@[j as int], #[trigger] cs@[l]) by {
                    assert(spec_min_sibling(cs@, j as int) <= dist_sq(cs@[j as int], cs@[l]));
                    assert((2 * (half as int)) * (2 * (half as int)) <= (r as int) * (r as int))
                        by (nonlinear_arith)
                        requires
                            0 <= 2 * (half as int) <= r as int;
                    assert(4 * (half as int) * (half as int) == (2 * (half as int)) * (2 * (
                    half as int))) by (nonlinear_arith);
                }
            }
            s.push(half);
        }
        j = j + 1;
    }
    s
}

/// Validity of the per-point upper bounds: each `u[i]` bounds, from
/// above, the distance from point `i` (in fixed-point units) to its
/// assigned centroid.
pub open spec fn bounds_valid(
    data: Seq<Color4>,
    cs: Seq<Color4>,
    assigns: Seq<usize>,
    u: Seq<u64>,
) -> bool {
    &&& assigns.len() == data.len()
    &&& u.len() == data.len()
    &&& forall|i: int|
        0 <= i < data.len() ==> dist_sq(data[i].spec_scaled(), cs[assigns[i] as int]) <= (
        #[trigger] u[i]) * u[i]
    &&& forall|i: int| 0 <= i < data.len() ==> #[trigger] u[i] <= BOUND_CAP
}

/// The bound-pruning assignment pass. A point whose upper bound lies
/// strictly inside its cluster's pruning radius is skipped outright;
/// otherwise its exact distance is computed (tightening the bound) and
/// only if the test still fails is a full scan made. The result is
/// exactly the full-scan assignment.
fn hamerly_assign_pass(
    data: &Vec<Color4>,
    cs: &Vec<Color4>,
    assigns: &mut Vec<usize>,
    u: &mut Vec<u64>,
)
    requires
        1 <= data.len() <= MAX_POINTS,
        all_in_range(data@, CHANNEL_MAX as int),
        1 <= cs.len(),
        all_in_range(cs@, COORD_MAX as int),
        forall|i: int| 0 <= i < old(assigns).len() ==> #[trigger] old(assigns)@[i] < cs.len(),
        bounds_valid(data@, cs@, old(assigns)@, old(u)@),
    ensures
        final(assigns)@ == spec_assign(data@, cs@),
        final(u).len() == data.len(),
        bounds_valid(data@, cs@, final(assigns)@, final(u)@),
        forall|i: int| 0 <= i < final(assigns).len() ==> #[trigger] final(assigns)@[i] < cs.len(),
{
    let s = compute_radii(cs);
    let mut i: usize = 0;
    while i < data.len()
        invariant
            0 <= i <= data.len(),
            1 <= data.len() <= MAX_POINTS,
            all_in_range(data@, CHANNEL_MAX as int),
            1 <= cs.len(),
            all_in_range(cs@, COORD_MAX as int),
            s.len() == cs.len(),
            forall|j: int| 0 <= j < s.len() ==> #[trigger] s@[j] <= BOUND_CAP,
            forall|j: int, l: int|
                0 <= j < cs.len() && 0 <= l < cs.len() && l != j ==> 4 * (#[trigger] s@[j]) * s@[j]
                    <= dist_sq(cs@[j], #[trigger] cs@[l]),
            assigns.len() == data.len(),
            u.len() == data.len(),
            forall|l: int| 0 <= l < assigns.len() ==> #[trigger] assigns@[l] < cs.len(),
            bounds_valid(data@, cs@, assigns@, u@),
            forall|l: int| 0 <= l < i ==> #[trigger] assigns@[l] == spec_assign(data@, cs@)[l],
        decreases data.len() - i,
    {
        let a = assigns[i];
        let ui = u[i];
        if ui < s[a] {
            proof {
                lemma_skip_is_exact(data@, cs@, i as int, a as int, ui as int, s@[a as int] as int);
            }
        } else {
            let p = data[i].scaled();
            let d = squared_distance(&p, &cs[a]);
            proof {
                lemma_dist_sq_range(p, cs@[a as int]);
            }
            let tight = int_sqrt_ceil(d);
            proof {
                lemma_cap_is_upper_bound(p, cs@[a as int]);
                assert((tight as int) * (tight as int) >= d);
            }
            let tight_capped = if tight > BOUND_CAP {
                BOUND_CAP
            } else {
                tight
            };
            proof {
                assert(dist_sq(p, cs@[a as int]) <= (tight_capped as int) * (tight_capped as int));
            }
            u.set(i, tight_capped);
            if tight_capped < s[a] {
                proof {
                    lemma_skip_is_exact(
                        data@,
                        cs@,
                        i as int,
                        a as int,
                        tight_capped as int,
                        s@[a as int] as int,
                    );
                }
            } else {
                let c = find_closest_centroid(&p, cs);
                let d2 = squared_distance(&p, &cs[c]);
                proof {
                    lemma_dist_sq_range(p, cs@[c as int]);
                }
                let nb = int_sqrt_ceil(d2);
                let nb_capped = if nb > BOUND_CAP {
                    BOUND_CAP
                } else {
                    nb
                };
                proof {
                    lemma_cap_is_upper_bound(p, cs@[c as int]);
                    assert(dist_sq(p, cs@[c as int]) <= (nb_capped as int) * (nb_capped as int));
                }
                assigns.set(i, c);
                u.set(i, nb_capped);
            }
        }
        i = i + 1;
    }
    proof {
        assert(assigns@ =~= spec_assign(data@, cs@));
    }
}

/// A skipped point's assignment is already the exact nearest-centroid
/// index: with `u < s`, every sibling is strictly farther away.
proof fn lemma_skip_is_exact(data: Seq<Color4>, cs: Seq<Color4>, i: int, a: int, u: int, s: int)
    requires
        0 <= i < data.len(),
        0 <= a < cs.len(),
        1 <= cs.len() <= usize::MAX,
        0 <= u < s,
        dist_sq(data[i].spec_scaled(), cs[a]) <= u * u,
        forall|l: int|
            0 <= l < cs.len() && l != a ==> 4 * s * s <= dist_sq(cs[a], #[trigger] cs[l]),
    ensures
        spec_assign(data, cs)[i] == a,
{
    let p = data[i].spec_scaled();
    assert forall|l: int| 0 <= l < cs.len() && l != a implies #[trigger] dist_sq(p, cs[l])
        > dist_sq(p, cs[a]) by {
        lemma_prune_strict(p, cs[a], cs[l], u, s);
    }
    lemma_closest_unique(p, cs, a);
    assert(spec_assign(data, cs)[i] == crate::distance::spec_closest(p, cs) as usize);
}

/// Grows every point's bound by its own centroid's displacement
/// (capped), keeping the bounds valid against the moved centroids
/// without touching any point.
fn update_bounds(
    data: &Vec<Color4>,
    cs_old: &Vec<Color4>,
    cs_new: &Vec<Color4>,
    assigns: &Vec<usize>,
    u: &mut Vec<u64>,
)
    requires
        1 <= data.len() <= MAX_POINTS,
        all_in_range(data@, CHANNEL_MAX as int),
        cs_old.len() == cs_new.len(),
        cs_old.len() >= 1,
        all_in_range(cs_old@, COORD_MAX as int),
        all_in_range(cs_new@, COORD_MAX as int),
        forall|i: int| 0 <= i < assigns.len() ==> #[trigger] assigns@[i] < cs_old.len(),
        bounds_valid(data@, cs_old@, assigns@, old(u)@),
    ensures
        bounds_valid(data@, cs_new@, assigns@, final(u)@),
        final(u).len() == data.len(),
{
    let mut deltas: Vec<u64> = Vec::new();
    let mut j: usize = 0;
    while j < cs_old.len()
        invariant
            0 <= j <= cs_old.len(),
            cs_old.len() == cs_new.len(),
            all_in_range(cs_old@, COORD_MAX as int),
            all_in_range(cs_new@, COORD_MAX as int),
            deltas.len() == j,
            forall|l: int|
                0 <= l < j ==> dist_sq(cs_old@[l], cs_new@[l]) <= (#[trigger] deltas@[l]) * (
                deltas@[l]),
            forall|l: int| 0 <= l < j ==> #[trigger] deltas@[l] <= 0x4_0001,
        decreases cs_old.len() - j,
    {
        let d = squared_distance(&cs_old[j], &cs_new[j]);
        proof {
            lemma_dist_sq_range(cs_old@[j as int], cs_new@[j as int]);
        }
        let delta = int_sqrt_ceil(d);
        deltas.push(delta);
        j = j + 1;
    }
    let mut i: usize = 0;
    while i < data.len()
        invariant
            0 <= i <= data.len(),
            1 <= data.len() <= MAX_POINTS,
            all_in_range(data@, CHANNEL_MAX as int),
            cs_old.len() == cs_new.len(),
            cs_old.len() >= 1,
            all_in_range(cs_old@, COORD_MAX as int),
            all_in_range(cs_new@, COORD_MAX as int),
            forall|l: int| 0 <= l < assigns.len() ==> #[trigger] assigns@[l] < cs_old.len(),
            deltas.len() == cs_old.len(),
            forall|l: int|
                0 <= l < deltas.len() ==> dist_sq(cs_old@[l], cs_new@[l]) <= (#[trigger] deltas@[l])
                    * (deltas@[l]),
            forall|l: int| 0 <= l < deltas.len() ==> #[trigger] deltas@[l] <= 0x4_0001,
            assigns.len() == data.len(),
            u.len() == data.len(),
            forall|l: int|
                i <= l < data.len() ==> dist_sq(
                    data@[l].spec_scaled(),
                    cs_old@[assigns@[l] as int],
                ) <= (#[trigger] u@[l]) * u@[l],
            forall|l: int|
                0 <= l < i ==> dist_sq(data@[l].spec_scaled(), cs_new@[assigns@[l] as int]) <= (
                #[trigger] u@[l]) * u@[l],
            forall|l: int| 0 <= l < data.len() ==> #[trigger] u@[l] <= BOUND_CAP,
        decreases data.len() - i,
    {
        let a = assigns[i];
        let grown = u[i] + deltas[a];
        let capped = if grown > BOUND_CAP {
            BOUND_CAP
        } else {
            grown
        };
        proof {
            let p = data@[i as int].spec_scaled();
            assert(data@[i as int].in_range(CHANNEL_MAX as int));
            assert(p.in_range(COORD_MAX as int));
            lemma_move_bound(
                p,
                cs_old@[a as int],
                cs_new@[a as int],
                u@[i as int] as int,
                deltas@[a as int] as int,
            );
            if grown > BOUND_CAP {
                lemma_cap_is_upper_bound(p, cs_new@[a as int]);
            } else {
                assert((grown as int) * (grown as int) >= ((u@[i as int] + deltas@[a as int]) as int)
                    * ((u@[i as int] + deltas@[a as int]) as int));
            }
        }
        u.set(i, capped);
        i = i + 1;
    }
}

/// Bound-pruning iterative refinement. Maintains one upper bound per
/// point and one pruning radius per cluster, skipping every point whose
/// assignment is provably unchanged; produces exactly the same result
/// as the baseline full-scan engine — the bounds are a pruning
/// optimization, never an approximation.
pub fn kmeans_hamerly(
    data: &Vec<Color4>,
    initial_centroids: Vec<Color4>,
    tolerance: u32,
    max_iterations: usize,
) -> (r: (Vec<usize>, Vec<Color4>))
    requires
        1 <= data.len() <= MAX_POINTS,
        all_in_range(data@, CHANNEL_MAX as int),
        initial_centroids.len() >= 1,
        all_in_range(initial_centroids@, COORD_MAX as int),
    ensures
        r.0@ == spec_engine_result(data@, initial_centroids@, tolerance, max_iterations as nat).0,
        r.1@ == spec_engine_result(data@, initial_centroids@, tolerance, max_iterations as nat).1,
        r.0.len() == data.len(),
        r.1.len() == initial_centroids.len(),
{
    let ghost cs0 = initial_centroids@;
    let mut cs = initial_centroids;
    let mut assigns: Vec<usize> = Vec::new();
    let mut u: Vec<u64> = Vec::new();
    let mut i: usize = 0;
    while i < data.len()
        invariant
            0 <= i <= data.len(),
            assigns.len() == i,
            u.len() == i,
            forall|l: int| 0 <= l < i ==> #[trigger] assigns@[l] == 0usize,
            forall|l: int| 0 <= l < i ==> #[trigger] u@[l] == BOUND_CAP,
        decreases data.len() - i,
    {
        assigns.push(0);
        u.push(BOUND_CAP);
        i = i + 1;
    }
    proof {
        assert forall|l: int| 0 <= l < data@.len() implies dist_sq(
            data@[l].spec_scaled(),
            cs@[assigns@[l] as int],
        ) <= (#[trigger] u@[l]) * u@[l] by {
            assert(data@[l].in_range(CHANNEL_MAX as int));
            lemma_cap_is_upper_bound(data@[l].spec_scaled(), cs@[0]);
        }
    }
    hamerly_assign_pass(data, &cs, &mut assigns, &mut u);
    let mut t: usize = 0;
    while t < max_iterations
        invariant_except_break
            t <= max_iterations,
            1 <= data.len() <= MAX_POINTS,
            all_in_range(data@, CHANNEL_MAX as int),
            cs.len() == cs0.len(),
            cs0.len() >= 1,
            all_in_range(cs@, COORD_MAX as int),
            assigns@ == spec_assign(data@, cs@),
            forall|l: int| 0 <= l < assigns.len() ==> #[trigger] assigns@[l] < cs.len(),
            bounds_valid(data@, cs@, assigns@, u@),
            spec_iterate(data@, cs0, tolerance, max_iterations as nat) == spec_iterate(
                data@,
                cs@,
                tolerance,
                (max_iterations - t) as nat,
            ),
        ensures
            cs.len() == cs0.len(),
            all_in_range(cs@, COORD_MAX as int),
            cs@ == spec_iterate(data@, cs0, tolerance, max_iterations as nat),
        decreases max_iterations - t,
    {
        let ghost cs_old = cs@;
        let aggs = aggregate_pass(data, &assigns, cs.len());
        proof {
            crate::engine::lemma_aggregate_bounds(data@, assigns@, aggs@, cs.len() as int);
        }
        let ns = update_from_aggregates(&aggs, &cs);
        proof {
            assert forall|j: int| 0 <= j < ns@.len() implies ns@[j] == #[trigger] spec_update(
                data@,
                cs_old,
            )[j] by {
                assert(aggs@[j].count == cluster_count(assigns@, j, data@.len() as int));
            }
            assert(ns@ =~= spec_update(data@, cs_old));
        }
        let conv = has_converged(&cs, &ns, tolerance);
        proof {
            let m = (max_iterations - t) as nat;
            assert(spec_iterate(data@, cs_old, tolerance, m) == if crate::distance::spec_converged(
                cs_old,
                ns@,
                tolerance,
            ) {
                ns@
            } else {
                spec_iterate(data@, ns@, tolerance, (m - 1) as nat)
            });
        }
        if conv {
            cs = ns;
            break;
        }
        update_bounds(data, &cs, &ns, &assigns, &mut u);
        cs = ns;
        hamerly_assign_pass(data, &cs, &mut assigns, &mut u);
        t = t + 1;
    }
    let final_assigns = assign_pass(data, &cs);
    (final_assigns, cs)
}

} // verus!
