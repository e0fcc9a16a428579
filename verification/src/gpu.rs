use vstd::prelude::*;

use crate::config::KMeansConfig;
use crate::distance::has_converged;
use crate::engine::{
    cluster_count, cluster_sum, spec_assign, spec_engine_result, spec_iterate, spec_update,
    update_from_aggregates, ClusterAggregate,
};
use crate::types::{all_in_range, Color4, CHANNEL_MAX, COORD_MAX, MAX_POINTS};

verus! {

/// The parallel engine's host-side model. The device protocol — dispatch
/// a compute pass over every point, await the readback of the aggregate
/// buffer, divide sums by counts, write centroids back — is modeled here
/// by verified passes over plain values: integer addition is associative
/// and commutative, so the atomic accumulation order on the device
/// cannot change the sums, and the model computes exactly what a
/// faithful device computes.
#[derive(Clone, Debug)]
pub struct KMeansGpu {
    pub config: KMeansConfig,
}

/// One compute dispatch: every unit finds its point's nearest centroid,
/// writes the index into the assignment buffer, and atomically adds its
/// channel values and a unit count into that cluster's aggregate slot.
pub fn dispatch_assign_and_aggregate(data: &Vec<Color4>, cs: &Vec<Color4>) -> (out: (
    Vec<u32>,
    Vec<ClusterAggregate>,
))
    requires
        1 <= data.len() <= MAX_POINTS,
        all_in_range(data@, CHANNEL_MAX as int),
        1 <= cs.len() <= MAX_POINTS,
        all_in_range(cs@, COORD_MAX as int),
    ensures
        out.0.len() == data.len(),
        forall|i: int| 0 <= i < data.len() ==> #[trigger] out.0@[i] == spec_assign(data@, cs@)[i],
        out.1.len() == cs.len(),
        forall|j: int|
            0 <= j < cs.len() ==> #[trigger] out.1@[j].count == cluster_count(
                spec_assign(data@, cs@),
                j,
                data.len() as int,
            ),
        forall|j: int|
            0 <= j < cs.len() ==> #[trigger] out.1@[j].sum_r == cluster_sum(
                data@,
                spec_assign(data@, cs@),
                j,
                0,
                data.len() as int,
            ),
        forall|j: int|
            0 <= j < cs.len() ==> #[trigger] out.1@[j].sum_g == cluster_sum(
                data@,
                spec_assign(data@, cs@),
                j,
                1,
                data.len() as int,
            ),
        forall|j: int|
            0 <= j < cs.len() ==> #[trigger] out.1@[j].sum_b == cluster_sum(
                data@,
                spec_assign(data@, cs@),
                j,
                2,
                data.len() as int,
            ),
        forall|j: int|
            0 <= j < cs.len() ==> #[trigger] out.1@[j].sum_a == cluster_sum(
                data@,
                spec_assign(data@, cs@),
                j,
                3,
                data.len() as int,
            ),
{
    let assigns = crate::engine::assign_pass(data, cs);
    let aggs = crate::engine::aggregate_pass(data, &assigns, cs.len());
    let mut assigns32: Vec<u32> = Vec::new();
    let mut i: usize = 0;
    while i < assigns.len()
        invariant
            0 <= i <= assigns.len(),
            forall|l: int| 0 <= l < assigns.len() ==> #[trigger] assigns@[l] < cs.len(),
            cs.len() <= MAX_POINTS,
            assigns32.len() == i,
            forall|l: int| 0 <= l < i ==> #[trigger] assigns32@[l] == assigns@[l],
        decreases assigns.len() - i,
    {
        assigns32.push(assigns[i] as u32);
        i = i + 1;
    }
    (assigns32, aggs)
}

/// The host-side step after a readback: divide each cluster's summed
/// channels by its unit count to form the next centroid; a cluster whose
/// count is zero keeps its previous centroid.
pub fn process_centroid_info(aggs: &Vec<ClusterAggregate>, cs: &Vec<Color4>) -> (ns: Vec<Color4>)
    requires
        aggs.len() == cs.len(),
        all_in_range(cs@, COORD_MAX as int),
        forall|j: int| 0 <= j < aggs.len() ==> #[trigger] aggs@[j].count <= MAX_POINTS,
        forall|j: int|
            0 <= j < aggs.len() ==> #[trigger] aggs@[j].sum_r <= aggs@[j].count * (
            CHANNEL_MAX as int),
        forall|j: int|
            0 <= j < aggs.len() ==> #[trigger] aggs@[j].sum_g <= aggs@[j].count * (
            CHANNEL_MAX as int),
        forall|j: int|
            0 <= j < aggs.len() ==> #[trigger] aggs@[j].sum_b <= aggs@[j].count * (
            CHANNEL_MAX as int),
        forall|j: int|
            0 <= j < aggs.len() ==> #[trigger] aggs@[j].sum_a <= aggs@[j].count * (
            CHANNEL_MAX as int),
    ensures
        ns.len() == cs.len(),
        forall|j: int|
            0 <= j < ns.len() ==> #[trigger] ns@[j] == crate::engine::spec_agg_centroid(
                aggs@[j],
                cs@[j],
            ),
        all_in_range(ns@, COORD_MAX as int),
{
    update_from_aggregates(aggs, cs)
}

/// Turns the raw assignment buffer into per-point cluster indices.
pub fn read_assignments(assigns32: &Vec<u32>) -> (assigns: Vec<usize>)
    ensures
        assigns.len() == assigns32.len(),
        forall|i: int| 0 <= i < assigns.len() ==> #[trigger] assigns@[i] == assigns32@[i],
{
    let mut assigns: Vec<usize> = Vec::new();
    let mut i: usize = 0;
    while i < assigns32.len()
        invariant
            0 <= i <= assigns32.len(),
            assigns.len() == i,
            forall|l: int| 0 <= l < i ==> #[trigger] assigns@[l] == assigns32@[l],
        decreases assigns32.len() - i,
    {
        assigns.push(assigns32[i] as usize);
        i = i + 1;
    }
    assigns
}

/// The parallel engine's iteration protocol, driven to completion:
/// dispatch, read the aggregates back, form the next centroids, test
/// convergence, write back; after the loop one final dispatch
/// materializes the assignment buffer against the final centroids.
/// Produces exactly the canonical engine result.
pub fn kmeans_gpu_engine(
    data: &Vec<Color4>,
    initial_centroids: Vec<Color4>,
    tolerance: u32,
    max_iterations: usize,
) -> (r: (Vec<usize>, Vec<Color4>))
    requires
        1 <= data.len() <= MAX_POINTS,
        all_in_range(data@, CHANNEL_MAX as int),
        1 <= initial_centroids.len() <= MAX_POINTS,
        all_in_range(initial_centroids@, COORD_MAX as int),
    ensures
        r.0@ == spec_engine_result(data@, initial_centroids@, tolerance, max_iterations as nat).0,
        r.1@ == spec_engine_result(data@, initial_centroids@, tolerance, max_iterations as nat).1,
        r.0.len() == data.len(),
        r.1.len() == initial_centroids.len(),
{
    let ghost cs0 = initial_centroids@;
    let mut cs = initial_centroids;
    let mut t: usize = 0;
    while t < max_iterations
        invariant_except_break
            t <= max_iterations,
            1 <= data.len() <= MAX_POINTS,
            all_in_range(data@, CHANNEL_MAX as int),
            cs.len() == cs0.len(),
            1 <= cs0.len() <= MAX_POINTS,
            all_in_range(cs@, COORD_MAX as int),
            spec_iterate(data@, cs0, tolerance, max_iterations as nat) == spec_iterate(
                data@,
                cs@,
                tolerance,
                (max_iterations - t) as nat,
            ),
        ensures
            cs.len() == cs0.len(),
            all_in_range(cs@, COORD_MAX as int),
            cs@ == spec_iterate(data@, cs0, tolerance, max_iterations as nat),
        decreases max_iterations - t,
    {
        let ghost cs_old = cs@;
        let out = dispatch_assign_and_aggregate(data, &cs);
        let aggs = out.1;
        proof {
            crate::engine::lemma_aggregate_bounds(data@, spec_assign(data@, cs@), aggs@, cs.len() as int);
        }
        let ns = process_centroid_info(&aggs, &cs);
        proof {
            assert forall|j: int| 0 <= j < ns@.len() implies ns@[j] == #[trigger] spec_update(
                data@,
                cs_old,
            )[j] by {
                assert(aggs@[j].count == cluster_count(
                    spec_assign(data@, cs_old),
                    j,
                    data@.len() as int,
                ));
            }
            assert(ns@ =~= spec_update(data@, cs_old));
        }
        let conv = has_converged(&cs, &ns, tolerance);
        proof {
            let m = (max_iterations - t) as nat;
            assert(spec_iterate(data@, cs_old, tolerance, m) == if crate::distance::spec_converged(
                cs_old,
                ns@,
                tolerance,
            ) {
                ns@
            } else {
                spec_iterate(data@, ns@, tolerance, (m - 1) as nat)
            });
        }
        cs = ns;
        if conv {
            break;
        }
        t = t + 1;
    }
    let out = dispatch_assign_and_aggregate(data, &cs);
    let assigns = read_assignments(&out.0);
    proof {
        assert(assigns@ =~= spec_assign(data@, cs@));
    }
    (assigns, cs)
}

impl KMeansGpu {
    /// Builds the engine model for the given configuration. The real
    /// device setup (adapter, pipeline, buffers) lives with the host
    /// driver; the model needs only the configuration.
    pub fn from_config(config: KMeansConfig) -> (g: KMeansGpu)
        ensures
            g.config == config,
    {
        KMeansGpu { config }
    }

    /// Changes the cluster count without rebuilding the engine.
    pub fn set_k(&mut self, k: usize)
        ensures
            final(self).config.k == k,
            final(self).config.max_iterations == old(self).config.max_iterations,
            final(self).config.tolerance == old(self).config.tolerance,
            final(self).config.algorithm == old(self).config.algorithm,
            final(self).config.initializer == old(self).config.initializer,
            final(self).config.seed == old(self).config.seed,
    {
        self.config.k = k;
    }
}

} // verus!
