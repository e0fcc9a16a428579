use vstd::prelude::*;

use crate::distance::has_converged;
use crate::engine::{
    aggregate_pass, assign_pass, cluster_count, spec_engine_result, spec_iterate, spec_update,
    update_from_aggregates,
};
use crate::types::{all_in_range, Color4, CHANNEL_MAX, COORD_MAX, MAX_POINTS};

verus! {

/// One verified refinement step shared by the sequential engines:
/// assignment pass, aggregation pass, centroid update.
pub fn refine_step(data: &Vec<Color4>, cs: &Vec<Color4>) -> (ns: Vec<Color4>)
    requires
        1 <= data.len() <= MAX_POINTS,
        all_in_range(data@, CHANNEL_MAX as int),
        cs.len() >= 1,
        all_in_range(cs@, COORD_MAX as int),
    ensures
        ns@ == spec_update(data@, cs@),
        ns.len() == cs.len(),
        all_in_range(ns@, COORD_MAX as int),
{
    let assigns = assign_pass(data, cs);
    let aggs = aggregate_pass(data, &assigns, cs.len());
    proof {
        crate::engine::lemma_aggregate_bounds(data@, assigns@, aggs@, cs.len() as int);
    }
    let ns = update_from_aggregates(&aggs, cs);
    proof {
        assert forall|j: int| 0 <= j < ns@.len() implies ns@[j] == #[trigger] spec_update(
            data@,
            cs@,
        )[j] by {
            assert(aggs@[j].count == cluster_count(assigns@, j, data@.len() as int));
        }
        assert(ns@ =~= spec_update(data@, cs@));
    }
    ns
}

/// Baseline full-scan iterative refinement from the given starting
/// centroids: each iteration assigns every point to its nearest
/// centroid, moves every non-empty cluster's centroid to its points'
/// mean, and stops on convergence or at the iteration cap. A final
/// assignment pass against the final centroids yields the returned
/// assignments.
pub fn kmeans_lloyd(
    data: &Vec<Color4>,
    initial_centroids: Vec<Color4>,
    tolerance: u32,
    max_iterations: usize,
) -> (r: (Vec<usize>, Vec<Color4>))
    requires
        1 <= data.len() <= MAX_POINTS,
        all_in_range(data@, CHANNEL_MAX as int),
        initial_centroids.len() >= 1,
        all_in_range(initial_centroids@, COORD_MAX as int),
    ensures
        r.0@ == spec_engine_result(data@, initial_centroids@, tolerance, max_iterations as nat).0,
        r.1@ == spec_engine_result(data@, initial_centroids@, tolerance, max_iterations as nat).1,
        r.0.len() == data.len(),
        r.1.len() == initial_centroids.len(),
{
    let ghost cs0 = initial_centroids@;
    let mut cs = initial_centroids;
    let mut t: usize = 0;
    while t < max_iterations
        invariant_except_break
            t <= max_iterations,
            1 <= data.len() <= MAX_POINTS,
            all_in_range(data@, CHANNEL_MAX as int),
            cs.len() == cs0.len(),
            cs0.len() >= 1,
            all_in_range(cs@, COORD_MAX as int),
            spec_iterate(data@, cs0, tolerance, max_iterations as nat) == spec_iterate(
                data@,
                cs@,
                tolerance,
                (max_iterations - t) as nat,
            ),
        ensures
            cs.len() == cs0.len(),
            all_in_range(cs@, COORD_MAX as int),
            cs@ == spec_iterate(data@, cs0, tolerance, max_iterations as nat),
        decreases max_iterations - t,
    {
        let ghost cs_old = cs@;
        let ns = refine_step(data, &cs);
        let conv = has_converged(&cs, &ns, tolerance);
        proof {
            let m = (max_iterations - t) as nat;
            assert(spec_iterate(data@, cs_old, tolerance, m) == if crate::distance::spec_converged(
                cs_old,
                ns@,
                tolerance,
            ) {
                ns@
            } else {
                spec_iterate(data@, ns@, tolerance, (m - 1) as nat)
            });
        }
        cs = ns;
        if conv {
            break;
        }
        t = t + 1;
    }
    let assigns = assign_pass(data, &cs);
    (assigns, cs)
}

} // verus!
