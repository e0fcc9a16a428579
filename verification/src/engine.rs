use vstd::prelude::*;

use crate::config::Initializer;
use crate::distance::{
    find_closest_centroid, lemma_spec_closest, spec_closest, spec_converged,
};
use crate::initializer::spec_init_centroids;
use crate::types::{all_in_range, Color4, CHANNEL_MAX, COORD_MAX, MAX_POINTS, SCALE};

verus! {

/// Per-cluster accumulator: running channel sums and a point count.
/// Rebuilt every iteration, never persisted across iterations.
#[derive(Clone, Copy, Debug)]
pub struct ClusterAggregate {
    pub sum_r: u64,
    pub sum_g: u64,
    pub sum_b: u64,
    pub sum_a: u64,
    pub count: u64,
}

/// The nearest-centroid index of every point. Points are raw colors and
/// are lifted into fixed-point units for the comparison; ties go to the
/// lowest centroid index.
pub open spec fn spec_assign(data: Seq<Color4>, cs: Seq<Color4>) -> Seq<usize> {
    Seq::new(data.len(), |i: int| spec_closest(data[i].spec_scaled(), cs) as usize)
}

/// Channel selector: channels 0 through 3 of a color vector.
pub open spec fn channel(c: Color4, ch: int) -> u32 {
    if ch == 0 {
        c.r
    } else if ch == 1 {
        c.g
    } else if ch == 2 {
        c.b
    } else {
        c.a
    }
}

/// Sum of channel `ch` over the points among the first `n` that are
/// assigned to cluster `j`.
pub open spec fn cluster_sum(
    data: Seq<Color4>,
    assigns: Seq<usize>,
    j: int,
    ch: int,
    n: int,
) -> int
    decreases n,
{
    if n <= 0 {
        0
    } else {
        cluster_sum(data, assigns, j, ch, n - 1) + if assigns[n - 1] == j {
            channel(data[n - 1], ch) as int
        } else {
            0
        }
    }
}

/// Number of points among the first `n` assigned to cluster `j`.
pub open spec fn cluster_count(assigns: Seq<usize>, j: int, n: int) -> int
    decreases n,
{
    if n <= 0 {
        0
    } else {
        cluster_count(assigns, j, n - 1) + if assigns[n - 1] == j {
            1int
        } else {
            0int
        }
    }
}

/// The centroid cluster `j` moves to: the fixed-point mean of its
/// assigned points; a cluster with no assigned points keeps its previous
/// centroid (it is not reset, and may be revived by a later pass).
pub open spec fn spec_new_centroid(
    data: Seq<Color4>,
    assigns: Seq<usize>,
    old_c: Color4,
    j: int,
) -> Color4 {
    let n = data.len() as int;
    let cnt = cluster_count(assigns, j, n);
    if cnt == 0 {
        old_c
    } else {
        Color4 {
            r: ((cluster_sum(data, assigns, j, 0, n) * SCALE) / cnt) as u32,
            g: ((cluster_sum(data, assigns, j, 1, n) * SCALE) / cnt) as u32,
            b: ((cluster_sum(data, assigns, j, 2, n) * SCALE) / cnt) as u32,
            a: ((cluster_sum(data, assigns, j, 3, n) * SCALE) / cnt) as u32,
        }
    }
}

/// One refinement step: assign every point to its nearest centroid,
/// then move every non-empty cluster's centroid to its points' mean.
pub open spec fn spec_update(data: Seq<Color4>, cs: Seq<Color4>) -> Seq<Color4> {
    let assigns = spec_assign(data, cs);
    Seq::new(cs.len(), |j: int| spec_new_centroid(data, assigns, cs[j], j))
}

/// Refinement iterated from `cs`: stops after the first step whose
/// movement falls below the tolerance, or after `iters` steps.
pub open spec fn spec_iterate(data: Seq<Color4>, cs: Seq<Color4>, tol: u32, iters: nat) -> Seq<
    Color4,
>
    decreases iters,
{
    if iters == 0 {
        cs
    } else {
        let ns = spec_update(data, cs);
        if spec_converged(cs, ns, tol) {
            ns
        } else {
            spec_iterate(data, ns, tol, (iters - 1) as nat)
        }
    }
}

/// What one engine run yields from given starting centroids: the final
/// centroids, and one final assignment pass against them.
pub open spec fn spec_engine_result(
    data: Seq<Color4>,
    cs0: Seq<Color4>,
    tol: u32,
    iters: nat,
) -> (Seq<usize>, Seq<Color4>) {
    let cf = spec_iterate(data, cs0, tol, iters);
    (spec_assign(data, cf), cf)
}

/// The one canonical result of a clustering run. Every backend —
/// baseline, bound-pruning, and the parallel model — returns exactly
/// this value for the same data, cluster count, tolerance, iteration
/// budget, initializer and seed; the algorithm choice never changes it.
pub open spec fn spec_kmeans_run(
    data: Seq<Color4>,
    k: nat,
    tol: u32,
    iters: nat,
    init: Initializer,
    seed: u64,
) -> (Seq<usize>, Seq<Color4>) {
    if data.len() == 0 {
        (Seq::empty(), Seq::empty())
    } else {
        spec_engine_result(data, spec_init_centroids(data, k, init, seed), tol, iters)
    }
}

pub proof fn lemma_assign_wf(data: Seq<Color4>, cs: Seq<Color4>)
    requires
        cs.len() >= 1,
    ensures
        spec_assign(data, cs).len() == data.len(),
        forall|i: int| 0 <= i < data.len() ==> #[trigger] spec_assign(data, cs)[i] < cs.len(),
{
    assert forall|i: int| 0 <= i < data.len() implies #[trigger] spec_assign(data, cs)[i]
        < cs.len() by {
        lemma_spec_closest(data[i].spec_scaled(), cs);
    }
}

/// Channel sums are bounded by the cluster's point count times the
/// largest channel value, and counts by the prefix length.
pub proof fn lemma_cluster_sum_bounds(
    data: Seq<Color4>,
    assigns: Seq<usize>,
    j: int,
    ch: int,
    n: int,
)
    requires
        0 <= n <= data.len(),
        all_in_range(data, CHANNEL_MAX as int),
    ensures
        0 <= cluster_count(assigns, j, n) <= n,
        0 <= cluster_sum(data, assigns, j, ch, n) <= cluster_count(assigns, j, n) * (
        CHANNEL_MAX as int),
    decreases n,
{
    if n > 0 {
        lemma_cluster_sum_bounds(data, assigns, j, ch, n - 1);
        assert(data[n - 1].in_range(CHANNEL_MAX as int));
        assert(channel(data[n - 1], ch) <= CHANNEL_MAX);
        let c0 = cluster_count(assigns, j, n - 1);
        let c1 = cluster_count(assigns, j, n);
        assert(c0 * (CHANNEL_MAX as int) + (CHANNEL_MAX as int) == (c0 + 1) * (CHANNEL_MAX as int))
            by (nonlinear_arith);
        assert(c0 * (CHANNEL_MAX as int) <= c1 * (CHANNEL_MAX as int)) by (nonlinear_arith)
            requires
                c0 <= c1;
    }
}

/// A moved centroid stays inside the fixed-point channel range.
pub proof fn lemma_new_centroid_in_range(
    data: Seq<Color4>,
    assigns: Seq<usize>,
    old_c: Color4,
    j: int,
)
    requires
        data.len() <= MAX_POINTS,
        all_in_range(data, CHANNEL_MAX as int),
        old_c.in_range(COORD_MAX as int),
    ensures
        spec_new_centroid(data, assigns, old_c, j).in_range(COORD_MAX as int),
{
    let n = data.len() as int;
    let cnt = cluster_count(assigns, j, n);
    if cnt != 0 {
        lemma_cluster_sum_bounds(data, assigns, j, 0, n);
        lemma_cluster_sum_bounds(data, assigns, j, 1, n);
        lemma_cluster_sum_bounds(data, assigns, j, 2, n);
        lemma_cluster_sum_bounds(data, assigns, j, 3, n);
        lemma_mean_channel_bound_one(cluster_sum(data, assigns, j, 0, n), cnt);
        lemma_mean_channel_bound_one(cluster_sum(data, assigns, j, 1, n), cnt);
        lemma_mean_channel_bound_one(cluster_sum(data, assigns, j, 2, n), cnt);
        lemma_mean_channel_bound_one(cluster_sum(data, assigns, j, 3, n), cnt);
    }
}

/// A cluster to which the pass assigned no points keeps its previous
/// centroid through the update — it is not reset to zero, and a later
/// assignment pass may revive it.
pub proof fn lemma_empty_cluster_keeps_centroid(data: Seq<Color4>, cs: Seq<Color4>, j: int)
    requires
        0 <= j < cs.len(),
        cluster_count(spec_assign(data, cs), j, data.len() as int) == 0,
    ensures
        spec_update(data, cs)[j] == cs[j],
{
}

/// Every refinement step keeps the centroid count and the channel range.
pub proof fn lemma_update_wf(data: Seq<Color4>, cs: Seq<Color4>)
    requires
        data.len() <= MAX_POINTS,
        all_in_range(data, CHANNEL_MAX as int),
        all_in_range(cs, COORD_MAX as int),
    ensures
        spec_update(data, cs).len() == cs.len(),
        all_in_range(spec_update(data, cs), COORD_MAX as int),
{
    assert forall|j: int| 0 <= j < cs.len() implies #[trigger] spec_update(data, cs)[j].in_range(
        COORD_MAX as int,
    ) by {
        lemma_new_centroid_in_range(data, spec_assign(data, cs), cs[j], j);
    }
}

/// Iterated refinement keeps the centroid count and the channel range.
pub proof fn lemma_iterate_wf(data: Seq<Color4>, cs: Seq<Color4>, tol: u32, iters: nat)
    requires
        data.len() <= MAX_POINTS,
        all_in_range(data, CHANNEL_MAX as int),
        all_in_range(cs, COORD_MAX as int),
    ensures
        spec_iterate(data, cs, tol, iters).len() == cs.len(),
        all_in_range(spec_iterate(data, cs, tol, iters), COORD_MAX as int),
    decreases iters,
{
    if iters > 0 {
        lemma_update_wf(data, cs);
        let ns = spec_update(data, cs);
        if !spec_converged(cs, ns, tol) {
            lemma_iterate_wf(data, ns, tol, (iters - 1) as nat);
        }
    }
}

/// The shape every valid run has: one assignment per point, every
/// assignment inside `[0, k)`, exactly `k` centroids, all centroids
/// inside the fixed-point channel range.
pub proof fn lemma_kmeans_run_wf(
    data: Seq<Color4>,
    k: nat,
    tol: u32,
    iters: nat,
    init: Initializer,
    seed: u64,
)
    requires
        1 <= data.len() <= MAX_POINTS,
        k >= 1,
        all_in_range(data, CHANNEL_MAX as int),
        init == Initializer::Random ==> k <= data.len(),
    ensures
        spec_kmeans_run(data, k, tol, iters, init, seed).0.len() == data.len(),
        forall|i: int|
            0 <= i < data.len() ==> #[trigger] spec_kmeans_run(
                data,
                k,
                tol,
                iters,
                init,
                seed,
            ).0[i] < k,
        spec_kmeans_run(data, k, tol, iters, init, seed).1.len() == k,
        all_in_range(spec_kmeans_run(data, k, tol, iters, init, seed).1, COORD_MAX as int),
{
    crate::initializer::lemma_initial_indices_wf(data, k, init, seed);
    let cs0 = spec_init_centroids(data, k, init, seed);
    assert(cs0.len() == k);
    assert forall|j: int| 0 <= j < cs0.len() implies #[trigger] cs0[j].in_range(
        COORD_MAX as int,
    ) by {
        let chosen = crate::initializer::spec_initial_indices(data, k, init, seed);
        assert(data[chosen[j] as int].in_range(CHANNEL_MAX as int));
    }
    lemma_iterate_wf(data, cs0, tol, iters);
    let cf = spec_iterate(data, cs0, tol, iters);
    lemma_assign_wf(data, cf);
}

/// One full nearest-centroid assignment pass.
pub fn assign_pass(data: &Vec<Color4>, cs: &Vec<Color4>) -> (assigns: Vec<usize>)
    requires
        cs.len() >= 1,
        all_in_range(data@, CHANNEL_MAX as int),
        all_in_range(cs@, COORD_MAX as int),
    ensures
        assigns@ == spec_assign(data@, cs@),
        assigns.len() == data.len(),
        forall|i: int| 0 <= i < assigns.len() ==> #[trigger] assigns@[i] < cs.len(),
{
    let mut assigns: Vec<usize> = Vec::new();
    let mut i: usize = 0;
    while i < data.len()
        invariant
            0 <= i <= data.len(),
            cs.len() >= 1,
            all_in_range(data@, CHANNEL_MAX as int),
            all_in_range(cs@, COORD_MAX as int),
            assigns.len() == i,
            forall|l: int| 0 <= l < i ==> assigns@[l] == spec_assign(data@, cs@)[l],
            forall|l: int| 0 <= l < i ==> #[trigger] assigns@[l] < cs.len(),
        decreases data.len() - i,
    {
        let p = data[i].scaled();
        let c = find_closest_centroid(&p, cs);
        assigns.push(c);
        i = i + 1;
    }
    proof {
        assert(assigns@ =~= spec_assign(data@, cs@));
    }
    assigns
}

/// One aggregation pass: per-cluster channel sums and point counts from
/// the given assignments.
pub fn aggregate_pass(data: &Vec<Color4>, assigns: &Vec<usize>, k: usize) -> (aggs: Vec<
    ClusterAggregate,
>)
    requires
        data.len() <= MAX_POINTS,
        all_in_range(data@, CHANNEL_MAX as int),
        assigns.len() == data.len(),
        forall|i: int| 0 <= i < assigns.len() ==> #[trigger] assigns@[i] < k,
    ensures
        aggs.len() == k,
        forall|j: int|
            0 <= j < k ==> #[trigger] aggs@[j].count == cluster_count(
                assigns@,
                j,
                data.len() as int,
            ),
        forall|j: int|
            0 <= j < k ==> #[trigger] aggs@[j].sum_r == cluster_sum(
                data@,
                assigns@,
                j,
                0,
                data.len() as int,
            ),
        forall|j: int|
            0 <= j < k ==> #[trigger] aggs@[j].sum_g == cluster_sum(
                data@,
                assigns@,
                j,
                1,
                data.len() as int,
            ),
        forall|j: int|
            0 <= j < k ==> #[trigger] aggs@[j].sum_b == cluster_sum(
                data@,
                assigns@,
                j,
                2,
                data.len() as int,
            ),
        forall|j: int|
            0 <= j < k ==> #[trigger] aggs@[j].sum_a == cluster_sum(
                data@,
                assigns@,
                j,
                3,
                data.len() as int,
            ),
{
    let mut aggs: Vec<ClusterAggregate> = Vec::new();
    let mut j: usize = 0;
    while j < k
        invariant
            aggs.len() == j,
            j <= k,
            forall|l: int|
                0 <= l < j ==> #[trigger] aggs@[l] == (ClusterAggregate {
                    sum_r: 0,
                    sum_g: 0,
                    sum_b: 0,
                    sum_a: 0,
                    count: 0,
                }),
        decreases k - j,
    {
        aggs.push(ClusterAggregate { sum_r: 0, sum_g: 0, sum_b: 0, sum_a: 0, count: 0 });
        j = j + 1;
    }
    let mut i: usize = 0;
    while i < data.len()
        invariant
            0 <= i <= data.len(),
            data.len() <= MAX_POINTS,
            all_in_range(data@, CHANNEL_MAX as int),
            assigns.len() == data.len(),
            forall|l: int| 0 <= l < assigns.len() ==> #[trigger] assigns@[l] < k,
            aggs.len() == k,
            forall|l: int|
                0 <= l < k ==> #[trigger] aggs@[l].count == cluster_count(assigns@, l, i as int),
            forall|l: int|
                0 <= l < k ==> #[trigger] aggs@[l].sum_r == cluster_sum(
                    data@,
                    assigns@,
                    l,
                    0,
                    i as int,
                ),
            forall|l: int|
                0 <= l < k ==> #[trigger] aggs@[l].sum_g == cluster_sum(
                    data@,
                    assigns@,
                    l,
                    1,
                    i as int,
                ),
            forall|l: int|
                0 <= l < k ==> #[trigger] aggs@[l].sum_b == cluster_sum(
                    data@,
                    assigns@,
                    l,
                    2,
                    i as int,
                ),
            forall|l: int|
                0 <= l < k ==> #[trigger] aggs@[l].sum_a == cluster_sum(
                    data@,
                    assigns@,
                    l,
                    3,
                    i as int,
                ),
        decreases data.len() - i,
    {
        let a = assigns[i];
        let p = data[i];
        proof {
            lemma_cluster_sum_bounds(data@, assigns@, a as int, 0, i as int);
            lemma_cluster_sum_bounds(data@, assigns@, a as int, 1, i as int);
            lemma_cluster_sum_bounds(data@, assigns@, a as int, 2, i as int);
            lemma_cluster_sum_bounds(data@, assigns@, a as int, 3, i as int);
            assert(cluster_count(assigns@, a as int, i as int) * (CHANNEL_MAX as int) <= (
            MAX_POINTS as int) * (CHANNEL_MAX as int)) by (nonlinear_arith)
                requires
                    0 <= cluster_count(assigns@, a as int, i as int) <= MAX_POINTS as int;
        }
        let old_agg = aggs[a];
        let new_agg = ClusterAggregate {
            sum_r: old_agg.sum_r + p.r as u64,
            sum_g: old_agg.sum_g + p.g as u64,
            sum_b: old_agg.sum_b + p.b as u64,
            sum_a: old_agg.sum_a + p.a as u64,
            count: old_agg.count + 1,
        };
        aggs.set(a, new_agg);
        i = i + 1;
    }
    aggs
}

/// How the host turns one cluster's aggregate into its next centroid:
/// the fixed-point mean when any points were counted, the previous
/// centroid otherwise.
pub open spec fn spec_agg_centroid(agg: ClusterAggregate, old_c: Color4) -> Color4 {
    if agg.count == 0 {
        old_c
    } else {
        Color4 {
            r: ((agg.sum_r * SCALE) / (agg.count as int)) as u32,
            g: ((agg.sum_g * SCALE) / (agg.count as int)) as u32,
            b: ((agg.sum_b * SCALE) / (agg.count as int)) as u32,
            a: ((agg.sum_a * SCALE) / (agg.count as int)) as u32,
        }
    }
}

/// Divides every cluster's sums by its count to form the next centroids;
/// clusters that counted no points keep their previous centroid.
pub fn update_from_aggregates(aggs: &Vec<ClusterAggregate>, cs: &Vec<Color4>) -> (ns: Vec<Color4>)
    requires
        aggs.len() == cs.len(),
        all_in_range(cs@, COORD_MAX as int),
        forall|j: int| 0 <= j < aggs.len() ==> #[trigger] aggs@[j].count <= MAX_POINTS,
        forall|j: int|
            0 <= j < aggs.len() ==> #[trigger] aggs@[j].sum_r <= aggs@[j].count * (
            CHANNEL_MAX as int),
        forall|j: int|
            0 <= j < aggs.len() ==> #[trigger] aggs@[j].sum_g <= aggs@[j].count * (
            CHANNEL_MAX as int),
        forall|j: int|
            0 <= j < aggs.len() ==> #[trigger] aggs@[j].sum_b <= aggs@[j].count * (
            CHANNEL_MAX as int),
        forall|j: int|
            0 <= j < aggs.len() ==> #[trigger] aggs@[j].sum_a <= aggs@[j].count * (
            CHANNEL_MAX as int),
    ensures
        ns.len() == cs.len(),
        forall|j: int| 0 <= j < ns.len() ==> #[trigger] ns@[j] == spec_agg_centroid(aggs@[j], cs@[j]),
        all_in_range(ns@, COORD_MAX as int),
{
    let mut ns: Vec<Color4> = Vec::new();
    let mut j: usize = 0;
    while j < aggs.len()
        invariant
            0 <= j <= aggs.len(),
            aggs.len() == cs.len(),
            all_in_range(cs@, COORD_MAX as int),
            forall|l: int| 0 <= l < aggs.len() ==> #[trigger] aggs@[l].count <= MAX_POINTS,
            forall|l: int|
                0 <= l < aggs.len() ==> #[trigger] aggs@[l].sum_r <= aggs@[l].count * (
                CHANNEL_MAX as int),
            forall|l: int|
                0 <= l < aggs.len() ==> #[trigger] aggs@[l].sum_g <= aggs@[l].count * (
                CHANNEL_MAX as int),
            forall|l: int|
                0 <= l < aggs.len() ==> #[trigger] aggs@[l].sum_b <= aggs@[l].count * (
                CHANNEL_MAX as int),
            forall|l: int|
                0 <= l < aggs.len() ==> #[trigger] aggs@[l].sum_a <= aggs@[l].count * (
                CHANNEL_MAX as int),
            ns.len() == j,
            forall|l: int|
                0 <= l < j ==> #[trigger] ns@[l] == spec_agg_centroid(aggs@[l], cs@[l]),
            forall|l: int| 0 <= l < j ==> #[trigger] ns@[l].in_range(COORD_MAX as int),
        decreases aggs.len() - j,
    {
        let agg = aggs[j];
        if agg.count == 0 {
            ns.push(cs[j]);
        } else {
            proof {
                lemma_mean_channel_bounds(agg);
            }
            let c = Color4 {
                r: ((agg.sum_r * SCALE as u64) / agg.count) as u32,
                g: ((agg.sum_g * SCALE as u64) / agg.count) as u32,
                b: ((agg.sum_b * SCALE as u64) / agg.count) as u32,
                a: ((agg.sum_a * SCALE as u64) / agg.count) as u32,
            };
            ns.push(c);
        }
        j = j + 1;
    }
    ns
}

/// Each mean channel of a counted cluster stays inside the fixed-point
/// range, and the products stay inside `u64`.
proof fn lemma_mean_channel_bounds(agg: ClusterAggregate)
    requires
        agg.count >= 1,
        agg.count <= MAX_POINTS,
        agg.sum_r <= agg.count * (CHANNEL_MAX as int),
        agg.sum_g <= agg.count * (CHANNEL_MAX as int),
        agg.sum_b <= agg.count * (CHANNEL_MAX as int),
        agg.sum_a <= agg.count * (CHANNEL_MAX as int),
    ensures
        agg.sum_r * (SCALE as int) <= 0x7FFF_FFFF_FFFF_FFFF,
        agg.sum_g * (SCALE as int) <= 0x7FFF_FFFF_FFFF_FFFF,
        agg.sum_b * (SCALE as int) <= 0x7FFF_FFFF_FFFF_FFFF,
        agg.sum_a * (SCALE as int) <= 0x7FFF_FFFF_FFFF_FFFF,
        0 <= (agg.sum_r * (SCALE as int)) / (agg.count as int) <= COORD_MAX,
        0 <= (agg.sum_g * (SCALE as int)) / (agg.count as int) <= COORD_MAX,
        0 <= (agg.sum_b * (SCALE as int)) / (agg.count as int) <= COORD_MAX,
        0 <= (agg.sum_a * (SCALE as int)) / (agg.count as int) <= COORD_MAX,
{
    lemma_mean_channel_bound_one(agg.sum_r as int, agg.count as int);
    lemma_mean_channel_bound_one(agg.sum_g as int, agg.count as int);
    lemma_mean_channel_bound_one(agg.sum_b as int, agg.count as int);
    lemma_mean_channel_bound_one(agg.sum_a as int, agg.count as int);
}

proof fn lemma_mean_channel_bound_one(s: int, cnt: int)
    requires
        cnt >= 1,
        cnt <= MAX_POINTS,
        0 <= s <= cnt * (CHANNEL_MAX as int),
    ensures
        s * (SCALE as int) <= 0x7FFF_FFFF_FFFF_FFFF,
        0 <= (s * (SCALE as int)) / cnt <= COORD_MAX,
{
    let scaled_max = (CHANNEL_MAX as int) * (SCALE as int);
    assert(s * (SCALE as int) <= cnt * scaled_max) by (nonlinear_arith)
        requires
            0 <= s <= cnt * (CHANNEL_MAX as int),
            scaled_max == (CHANNEL_MAX as int) * (SCALE as int);
    assert(cnt * scaled_max <= (MAX_POINTS as int) * scaled_max) by (nonlinear_arith)
        requires
            1 <= cnt <= MAX_POINTS as int,
            scaled_max >= 0;
    vstd::arithmetic::div_mod::lemma_div_is_ordered(s * (SCALE as int), cnt * scaled_max, cnt);
    assert((cnt * scaled_max) / cnt == scaled_max) by {
        vstd::arithmetic::div_mod::lemma_div_by_multiple(scaled_max, cnt);
        assert(cnt * scaled_max == scaled_max * cnt) by (nonlinear_arith);
    }
    vstd::arithmetic::div_mod::lemma_div_pos_is_pos(s * (SCALE as int), cnt);
    assert(s * (SCALE as int) >= 0) by (nonlinear_arith)
        requires
            s >= 0;
}

/// Establishes the aggregate bounds `update_from_aggregates` needs and
/// that the updated centroids are exactly one refinement step.
pub proof fn lemma_aggregate_bounds(
    data: Seq<Color4>,
    assigns: Seq<usize>,
    aggs: Seq<ClusterAggregate>,
    k: int,
)
    requires
        data.len() <= MAX_POINTS,
        all_in_range(data, CHANNEL_MAX as int),
        assigns.len() == data.len(),
        aggs.len() == k,
        forall|j: int| 0 <= j < k ==> #[trigger] aggs[j].count == cluster_count(assigns, j, data.len() as int),
        forall|j: int| 0 <= j < k ==> #[trigger] aggs[j].sum_r == cluster_sum(data, assigns, j, 0, data.len() as int),
        forall|j: int| 0 <= j < k ==> #[trigger] aggs[j].sum_g == cluster_sum(data, assigns, j, 1, data.len() as int),
        forall|j: int| 0 <= j < k ==> #[trigger] aggs[j].sum_b == cluster_sum(data, assigns, j, 2, data.len() as int),
        forall|j: int| 0 <= j < k ==> #[trigger] aggs[j].sum_a == cluster_sum(data, assigns, j, 3, data.len() as int),
    ensures
        forall|j: int| 0 <= j < k ==> #[trigger] aggs[j].count <= MAX_POINTS,
        forall|j: int|
            0 <= j < k ==> #[trigger] aggs[j].sum_r <= aggs[j].count * (CHANNEL_MAX as int),
        forall|j: int|
            0 <= j < k ==> #[trigger] aggs[j].sum_g <= aggs[j].count * (CHANNEL_MAX as int),
        forall|j: int|
            0 <= j < k ==> #[trigger] aggs[j].sum_b <= aggs[j].count * (CHANNEL_MAX as int),
        forall|j: int|
            0 <= j < k ==> #[trigger] aggs[j].sum_a <= aggs[j].count * (CHANNEL_MAX as int),
{
    assert forall|j: int| 0 <= j < k implies #[trigger] aggs[j].count <= MAX_POINTS
        && aggs[j].sum_r <= aggs[j].count * (CHANNEL_MAX as int) && aggs[j].sum_g <= aggs[j].count
        * (CHANNEL_MAX as int) && aggs[j].sum_b <= aggs[j].count * (CHANNEL_MAX as int)
        && aggs[j].sum_a <= aggs[j].count * (CHANNEL_MAX as int) by {
        lemma_cluster_sum_bounds(data, assigns, j, 0, data.len() as int);
        lemma_cluster_sum_bounds(data, assigns, j, 1, data.len() as int);
        lemma_cluster_sum_bounds(data, assigns, j, 2, data.len() as int);
        lemma_cluster_sum_bounds(data, assigns, j, 3, data.len() as int);
    }
}

} // verus!
