use vstd::prelude::*;

use crate::config::Initializer;
use crate::distance::{
    dist_sq, find_closest_centroid, lemma_dist_sq_range, spec_closest, squared_distance,
};
use crate::rng::{spec_mix, spec_next_state, SeededRng};
use crate::types::{all_in_range, Color4, CHANNEL_MAX, COORD_MAX, MAX_POINTS};

verus! {

/// The chosen data points, scaled into fixed-point units, in choice order.
pub open spec fn chosen_to_cents(data: Seq<Color4>, chosen: Seq<usize>) -> Seq<Color4> {
    Seq::new(chosen.len(), |i: int| data[chosen[i] as int].spec_scaled())
}

/// Squared distance from `p` to the nearest centroid of `cs`.
pub open spec fn spec_min_dist(p: Color4, cs: Seq<Color4>) -> int {
    dist_sq(p, cs[spec_closest(p, cs)])
}

/// Per-point seeding weights: each point's squared distance to the
/// nearest already-chosen centroid.
pub open spec fn spec_weights(data: Seq<Color4>, cs: Seq<Color4>) -> Seq<u64> {
    Seq::new(data.len(), |i: int| spec_min_dist(data[i].spec_scaled(), cs) as u64)
}

/// Sum of the first `n` weights.
pub open spec fn sum_prefix(ws: Seq<u64>, n: int) -> int
    decreases n,
{
    if n <= 0 {
        0
    } else {
        sum_prefix(ws, n - 1) + ws[n - 1]
    }
}

/// The cumulative-sum threshold draw: starting from index `i` with the
/// weight mass `acc` already passed, the first index whose cumulative
/// weight exceeds `t`; the last index when none does.
pub open spec fn pick_from(ws: Seq<u64>, t: int, i: int, acc: int) -> int
    decreases ws.len() - i,
{
    if i >= ws.len() - 1 {
        ws.len() - 1
    } else if acc + ws[i] > t {
        i
    } else {
        pick_from(ws, t, i + 1, acc + ws[i])
    }
}

pub proof fn lemma_pick_from_bounds(ws: Seq<u64>, t: int, i: int, acc: int)
    requires
        0 <= i <= ws.len() - 1,
    ensures
        i <= pick_from(ws, t, i, acc) < ws.len(),
    decreases ws.len() - i,
{
    if i < ws.len() - 1 && !(acc + ws[i] > t) {
        lemma_pick_from_bounds(ws, t, i + 1, acc + ws[i]);
    }
}

/// The index the distance-weighted round picks, given the draw `v`:
/// a cumulative-sum threshold draw over the weights; the first data
/// point when all weights are zero.
pub open spec fn spec_pp_next(data: Seq<Color4>, chosen: Seq<usize>, v: u64) -> usize {
    let ws = spec_weights(data, chosen_to_cents(data, chosen));
    let total = sum_prefix(ws, ws.len() as int);
    if total <= 0 {
        0
    } else {
        pick_from(ws, (v as int) % total, 0, 0) as usize
    }
}

/// Distance-weighted seeding, continued from the already-chosen indices:
/// one draw per further centroid until `k` are chosen.
pub open spec fn spec_pp(data: Seq<Color4>, k: nat, state: u64, chosen: Seq<usize>) -> Seq<usize>
    decreases k - chosen.len(),
{
    if chosen.len() >= k {
        chosen
    } else {
        let s2 = spec_next_state(state);
        spec_pp(data, k, s2, chosen.push(spec_pp_next(data, chosen, spec_mix(s2))))
    }
}

/// The indices `0, 1, ..., n - 1`.
pub open spec fn identity_indices(n: nat) -> Seq<usize> {
    Seq::new(n, |i: int| i as usize)
}

/// Partial shuffle: steps `t` through `k`, each step swapping position
/// `t` with a drawn position in `t..n`. Returns the permuted indices and
/// the generator state after the draws.
pub open spec fn spec_fy_state(idx: Seq<usize>, t: nat, k: nat, state: u64) -> (Seq<usize>, u64)
    decreases k - t,
{
    if t >= k || t >= idx.len() {
        (idx, state)
    } else {
        let s2 = spec_next_state(state);
        let j = t + (spec_mix(s2) as int) % (idx.len() - t);
        let a = idx[t as int];
        let b = idx[j];
        spec_fy_state(idx.update(t as int, b).update(j, a), (t + 1) as nat, k, s2)
    }
}

/// `k` indices drawn uniformly without replacement from `0..data_len`.
pub open spec fn spec_random_indices(data_len: nat, k: nat, seed: u64) -> Seq<usize> {
    spec_fy_state(identity_indices(data_len), 0, k, seed).0.take(k as int)
}

/// The indices of the starting centroids for one run: empty for empty
/// data, else `k` draws from the seeded generator under the chosen
/// initializer.
pub open spec fn spec_initial_indices(
    data: Seq<Color4>,
    k: nat,
    init: Initializer,
    seed: u64,
) -> Seq<usize> {
    if data.len() == 0 {
        Seq::empty()
    } else {
        match init {
            Initializer::KMeansPlusPlus => {
                let s1 = spec_next_state(seed);
                let first = ((spec_mix(s1) as int) % (data.len() as int)) as usize;
                spec_pp(data, k, s1, seq![first])
            },
            Initializer::Random => spec_random_indices(data.len(), k, seed),
        }
    }
}

/// The starting centroids themselves: the chosen data points in
/// fixed-point units.
pub open spec fn spec_init_centroids(
    data: Seq<Color4>,
    k: nat,
    init: Initializer,
    seed: u64,
) -> Seq<Color4> {
    chosen_to_cents(data, spec_initial_indices(data, k, init, seed))
}

pub proof fn lemma_pp_wf(data: Seq<Color4>, k: nat, state: u64, chosen: Seq<usize>)
    requires
        data.len() >= 1,
        forall|i: int| 0 <= i < chosen.len() ==> chosen[i] < data.len(),
    ensures
        spec_pp(data, k, state, chosen).len() == if chosen.len() >= k {
            chosen.len() as int
        } else {
            k as int
        },
        forall|i: int|
            0 <= i < spec_pp(data, k, state, chosen).len() ==> #[trigger] spec_pp(
                data,
                k,
                state,
                chosen,
            )[i] < data.len(),
    decreases k - chosen.len(),
{
    if chosen.len() < k {
        let s2 = spec_next_state(state);
        let nxt = spec_pp_next(data, chosen, spec_mix(s2));
        assert(nxt < data.len()) by {
            let ws = spec_weights(data, chosen_to_cents(data, chosen));
            let total = sum_prefix(ws, ws.len() as int);
            if total > 0 {
                lemma_pick_from_bounds(ws, (spec_mix(s2) as int) % total, 0, 0);
            }
        }
        lemma_pp_wf(data, k, s2, chosen.push(nxt));
    }
}

pub proof fn lemma_fy_wf(idx: Seq<usize>, t: nat, k: nat, state: u64, n: int)
    requires
        idx.len() == n,
        forall|i: int| 0 <= i < n ==> idx[i] < n,
    ensures
        spec_fy_state(idx, t, k, state).0.len() == n,
        forall|i: int| 0 <= i < n ==> #[trigger] spec_fy_state(idx, t, k, state).0[i] < n,
    decreases k - t,
{
    if !(t >= k || t >= idx.len()) {
        let s2 = spec_next_state(state);
        let j = t + (spec_mix(s2) as int) % (idx.len() - t);
        let a = idx[t as int];
        let b = idx[j];
        lemma_fy_wf(idx.update(t as int, b).update(j, a), (t + 1) as nat, k, s2, n);
    }
}

/// The starting-centroid index list is `k` long (for nonempty data) and
/// every index points into the data.
pub proof fn lemma_initial_indices_wf(data: Seq<Color4>, k: nat, init: Initializer, seed: u64)
    requires
        data.len() >= 1,
        k >= 1,
        init == Initializer::Random ==> k <= data.len(),
    ensures
        spec_initial_indices(data, k, init, seed).len() == k,
        forall|i: int|
            0 <= i < k ==> #[trigger] spec_initial_indices(data, k, init, seed)[i] < data.len(),
{
    match init {
        Initializer::KMeansPlusPlus => {
            let s1 = spec_next_state(seed);
            let first = ((spec_mix(s1) as int) % (data.len() as int)) as usize;
            assert((spec_mix(s1) as int) % (data.len() as int) < data.len());
            lemma_pp_wf(data, k, s1, seq![first]);
        },
        Initializer::Random => {
            lemma_fy_wf(identity_indices(data.len()), 0, k, seed, data.len() as int);
        },
    }
}

/// Computes each point's squared distance to its nearest centroid.
fn compute_weights(data: &Vec<Color4>, cents: &Vec<Color4>) -> (ws: Vec<u64>)
    requires
        cents.len() >= 1,
        all_in_range(data@, CHANNEL_MAX as int),
        all_in_range(cents@, COORD_MAX as int),
    ensures
        ws@ == spec_weights(data@, cents@),
        forall|i: int| 0 <= i < ws.len() ==> ws@[i] < 0x4_0000_0000,
    decreases data.len(),
{
    let mut ws: Vec<u64> = Vec::new();
    let mut i: usize = 0;
    while i < data.len()
        invariant
            0 <= i <= data.len(),
            cents.len() >= 1,
            all_in_range(data@, CHANNEL_MAX as int),
            all_in_range(cents@, COORD_MAX as int),
            ws.len() == i,
            forall|l: int| 0 <= l < i ==> ws@[l] == spec_weights(data@, cents@)[l],
            forall|l: int| 0 <= l < i ==> ws@[l] < 0x4_0000_0000,
        decreases data.len() - i,
    {
        let p = data[i].scaled();
        let c = find_closest_centroid(&p, cents);
        let w = squared_distance(&p, &cents[c]);
        proof {
            lemma_dist_sq_range(p, cents@[c as int]);
        }
        ws.push(w);
        i = i + 1;
    }
    proof {
        assert(ws@ =~= spec_weights(data@, cents@));
    }
    ws
}

proof fn lemma_sum_prefix_bound(ws: Seq<u64>, n: int, bound: int)
    requires
        0 <= n <= ws.len(),
        forall|i: int| 0 <= i < ws.len() ==> ws[i] <= bound,
        bound >= 0,
    ensures
        0 <= sum_prefix(ws, n) <= n * bound,
    decreases n,
{
    if n > 0 {
        lemma_sum_prefix_bound(ws, n - 1, bound);
        assert((n - 1) * bound + bound == n * bound) by (nonlinear_arith);
    }
}

/// Sums the weights; the bounds on weight count and size keep the sum in `u64`.
fn sum_weights(ws: &Vec<u64>) -> (total: u64)
    requires
        ws.len() <= MAX_POINTS,
        forall|i: int| 0 <= i < ws.len() ==> ws@[i] < 0x4_0000_0000,
    ensures
        total == sum_prefix(ws@, ws.len() as int),
{
    proof {
        lemma_sum_prefix_bound(ws@, ws.len() as int, 0x4_0000_0000);
        assert((MAX_POINTS as int) * 0x4_0000_0000 < 0x1_0000_0000_0000_0000) by (nonlinear_arith);
    }
    let mut total: u64 = 0;
    let mut i: usize = 0;
    while i < ws.len()
        invariant
            0 <= i <= ws.len(),
            ws.len() <= MAX_POINTS,
            forall|l: int| 0 <= l < ws.len() ==> ws@[l] < 0x4_0000_0000,
            total == sum_prefix(ws@, i as int),
            total <= (i as int) * 0x4_0000_0000,
        decreases ws.len() - i,
    {
        proof {
            assert((i as int) * 0x4_0000_0000 + 0x4_0000_0000 == (i as int + 1) * 0x4_0000_0000)
                by (nonlinear_arith);
            assert((i as int + 1) * 0x4_0000_0000 <= (MAX_POINTS as int) * 0x4_0000_0000)
                by (nonlinear_arith)
                requires
                    i as int + 1 <= MAX_POINTS as int;
            assert((MAX_POINTS as int) * 0x4_0000_0000 < 0x1_0000_0000_0000_0000)
                by (nonlinear_arith);
        }
        total = total + ws[i];
        i = i + 1;
    }
    total
}

/// The cumulative-sum threshold draw over the computed weights.
fn pick_index(ws: &Vec<u64>, threshold: u64) -> (idx: usize)
    requires
        ws.len() >= 1,
        ws.len() <= MAX_POINTS,
        forall|i: int| 0 <= i < ws.len() ==> ws@[i] < 0x4_0000_0000,
    ensures
        idx == pick_from(ws@, threshold as int, 0, 0),
        idx < ws.len(),
{
    let mut acc: u64 = 0;
    let mut i: usize = 0;
    proof {
        lemma_pick_from_bounds(ws@, threshold as int, 0, 0);
    }
    while i + 1 < ws.len()
        invariant
            0 <= i <= ws.len() - 1,
            ws.len() <= MAX_POINTS,
            forall|l: int| 0 <= l < ws.len() ==> ws@[l] < 0x4_0000_0000,
            acc == sum_prefix(ws@, i as int),
            acc <= (i as int) * 0x4_0000_0000,
            pick_from(ws@, threshold as int, 0, 0) == pick_from(
                ws@,
                threshold as int,
                i as int,
                acc as int,
            ),
        decreases ws.len() - i,
    {
        if acc + ws[i] > threshold {
            proof {
                lemma_pick_from_bounds(ws@, threshold as int, 0, 0);
            }
            return i;
        }
        proof {
            assert((i as int) * 0x4_0000_0000 + 0x4_0000_0000 == (i as int + 1) * 0x4_0000_0000)
                by (nonlinear_arith);
            assert((i as int + 1) * 0x4_0000_0000 <= (MAX_POINTS as int) * 0x4_0000_0000)
                by (nonlinear_arith)
                requires
                    i as int + 1 <= MAX_POINTS as int;
            assert((MAX_POINTS as int) * 0x4_0000_0000 < 0x1_0000_0000_0000_0000)
                by (nonlinear_arith);
        }
        acc = acc + ws[i];
        i = i + 1;
    }
    i
}

/// Draws the starting-centroid indices for one run: `k` draws from the
/// seeded generator, by distance-weighted seeding or by uniform
/// without-replacement selection.
pub fn initialize_indices(
    data: &Vec<Color4>,
    k: usize,
    init: Initializer,
    rng: &mut SeededRng,
) -> (chosen: Vec<usize>)
    requires
        1 <= data.len() <= MAX_POINTS,
        all_in_range(data@, CHANNEL_MAX as int),
        k >= 1,
        init == Initializer::Random ==> k <= data.len(),
    ensures
        chosen@ == spec_initial_indices(data@, k as nat, init, old(rng).state),
        chosen.len() == k,
        forall|i: int| 0 <= i < k ==> #[trigger] chosen@[i] < data.len(),
{
    proof {
        lemma_initial_indices_wf(data@, k as nat, init, old(rng).state);
    }
    let ghost seed0 = rng.state;
    match init {
        Initializer::KMeansPlusPlus => {
            let first = rng.next_below(data.len() as u64) as usize;
            let mut chosen: Vec<usize> = Vec::new();
            let mut cents: Vec<Color4> = Vec::new();
            chosen.push(first);
            cents.push(data[first].scaled());
            proof {
                assert(chosen@ =~= seq![first]);
                assert(cents@ =~= chosen_to_cents(data@, chosen@));
            }
            while chosen.len() < k
                invariant
                    1 <= data.len() <= MAX_POINTS,
                    all_in_range(data@, CHANNEL_MAX as int),
                    k >= 1,
                    1 <= chosen.len() <= k,
                    cents@ == chosen_to_cents(data@, chosen@),
                    forall|i: int| 0 <= i < chosen.len() ==> #[trigger] chosen@[i] < data.len(),
                    all_in_range(cents@, COORD_MAX as int),
                    spec_pp(data@, k as nat, rng.state, chosen@) == spec_initial_indices(
                        data@,
                        k as nat,
                        init,
                        seed0,
                    ),
                decreases k - chosen.len(),
            {
                let ghost st_old = rng.state;
                let ghost chosen_old = chosen@;
                let v = rng.next_u64();
                let ws = compute_weights(data, &cents);
                let total = sum_weights(&ws);
                let next_idx: usize;
                if total == 0 {
                    next_idx = 0;
                } else {
                    let t = v % total;
                    next_idx = pick_index(&ws, t);
                }
                proof {
                    assert(next_idx == spec_pp_next(data@, chosen_old, v));
                    assert(spec_pp(data@, k as nat, st_old, chosen_old) == spec_pp(
                        data@,
                        k as nat,
                        rng.state,
                        chosen_old.push(next_idx),
                    ));
                }
                chosen.push(next_idx);
                cents.push(data[next_idx].scaled());
                proof {
                    assert(chosen@ =~= chosen_old.push(next_idx));
                    assert(cents@ =~= chosen_to_cents(data@, chosen@));
                }
            }
            chosen
        },
        Initializer::Random => {
            let n = data.len();
            let mut idx: Vec<usize> = Vec::new();
            let mut i: usize = 0;
            while i < n
                invariant
                    0 <= i <= n,
                    idx.len() == i,
                    forall|l: int| 0 <= l < i ==> idx@[l] == l as usize,
                decreases n - i,
            {
                idx.push(i);
                i = i + 1;
            }
            proof {
                assert(idx@ =~= identity_indices(n as nat));
            }
            let mut chosen: Vec<usize> = Vec::new();
            let mut t: usize = 0;
            while t < k
                invariant
                    1 <= k <= n <= MAX_POINTS,
                    n == data.len(),
                    0 <= t <= k,
                    idx.len() == n,
                    chosen.len() == t,
                    forall|l: int| 0 <= l < n ==> #[trigger] idx@[l] < n,
                    chosen@ == idx@.take(t as int),
                    spec_fy_state(idx@, t as nat, k as nat, rng.state) == spec_fy_state(
                        identity_indices(n as nat),
                        0,
                        k as nat,
                        seed0,
                    ),
                decreases k - t,
            {
                let ghost idx_old = idx@;
                let ghost st_old = rng.state;
                let off = rng.next_below((n - t) as u64) as usize;
                let j = t + off;
                let a = idx[t];
                let b = idx[j];
                idx.set(t, b);
                idx.set(j, a);
                proof {
                    assert(idx@ =~= idx_old.update(t as int, b).update(j as int, a));
                    assert(spec_fy_state(idx_old, t as nat, k as nat, st_old) == spec_fy_state(
                        idx@,
                        (t + 1) as nat,
                        k as nat,
                        rng.state,
                    ));
                }
                let c = idx[t];
                chosen.push(c);
                proof {
                    assert(chosen@ =~= idx@.take(t as int + 1));
                }
                t = t + 1;
            }
            proof {
                assert(spec_fy_state(idx@, k as nat, k as nat, rng.state).0 == idx@);
                assert(chosen@ == spec_random_indices(n as nat, k as nat, seed0));
            }
            chosen
        },
    }
}

/// Draws the starting centroids in fixed-point units.
pub fn initialize_centroids_scaled(
    data: &Vec<Color4>,
    k: usize,
    init: Initializer,
    rng: &mut SeededRng,
) -> (cs: Vec<Color4>)
    requires
        1 <= data.len() <= MAX_POINTS,
        all_in_range(data@, CHANNEL_MAX as int),
        k >= 1,
        init == Initializer::Random ==> k <= data.len(),
    ensures
        cs@ == spec_init_centroids(data@, k as nat, init, old(rng).state),
        cs.len() == k,
        all_in_range(cs@, COORD_MAX as int),
{
    let chosen = initialize_indices(data, k, init, rng);
    let mut cs: Vec<Color4> = Vec::new();
    let mut i: usize = 0;
    while i < chosen.len()
        invariant
            0 <= i <= chosen.len(),
            all_in_range(data@, CHANNEL_MAX as int),
            forall|l: int| 0 <= l < chosen.len() ==> #[trigger] chosen@[l] < data.len(),
            cs.len() == i,
            forall|l: int| 0 <= l < i ==> cs@[l] == chosen_to_cents(data@, chosen@)[l],
        decreases chosen.len() - i,
    {
        let c = chosen[i];
        cs.push(data[c].scaled());
        i = i + 1;
    }
    proof {
        assert(cs@ =~= chosen_to_cents(data@, chosen@));
        assert forall|l: int| 0 <= l < cs@.len() implies #[trigger] cs@[l].in_range(
            COORD_MAX as int,
        ) by {
            assert(data@[chosen@[l] as int].in_range(CHANNEL_MAX as int));
        }
    }
    cs
}

/// The chosen starting points themselves, in raw channel units.
pub open spec fn spec_initial_points(data: Seq<Color4>, k: nat, seed: u64) -> Seq<Color4> {
    let chosen = spec_initial_indices(data, k, Initializer::KMeansPlusPlus, seed);
    Seq::new(chosen.len(), |i: int| data[chosen[i] as int])
}

/// Distance-squared-weighted seeding over the data points themselves:
/// returns `k` starting centroids drawn from `data` (empty for empty
/// data). With a seed the choice is a pure function of `(data, k, seed)`;
/// without one, a seed is drawn once from machine entropy.
pub fn initialize_centroids(data: &Vec<Color4>, k: usize, seed: Option<u64>) -> (cs: Vec<Color4>)
    requires
        data.len() <= MAX_POINTS,
        all_in_range(data@, CHANNEL_MAX as int),
        k >= 1,
    ensures
        data.len() == 0 ==> cs.len() == 0,
        data.len() >= 1 ==> cs.len() == k,
        forall|j: int|
            0 <= j < cs.len() ==> exists|i: int| 0 <= i < data.len() && #[trigger] cs@[j] == data@[i],
        seed matches Some(s) ==> cs@ == spec_initial_points(data@, k as nat, s),
        exists|s: u64| cs@ == spec_initial_points(data@, k as nat, s),
{
    let s: u64 = match seed {
        Some(s) => s,
        None => crate::rng::entropy_u64(),
    };
    let mut rng = SeededRng::new(s);
    if data.len() == 0 {
        let cs: Vec<Color4> = Vec::new();
        proof {
            assert(cs@ =~= spec_initial_points(data@, k as nat, s));
            assert(exists|sd: u64| cs@ == spec_initial_points(data@, k as nat, sd)) by {
                assert(cs@ == spec_initial_points(data@, k as nat, s));
            }
        }
        return cs;
    }
    let chosen = initialize_indices(data, k, Initializer::KMeansPlusPlus, &mut rng);
    let mut cs: Vec<Color4> = Vec::new();
    let mut i: usize = 0;
    while i < chosen.len()
        invariant
            0 <= i <= chosen.len(),
            forall|l: int| 0 <= l < chosen.len() ==> #[trigger] chosen@[l] < data.len(),
            cs.len() == i,
            forall|l: int| 0 <= l < i ==> cs@[l] == data@[chosen@[l] as int],
        decreases chosen.len() - i,
    {
        let c = chosen[i];
        cs.push(data[c]);
        i = i + 1;
    }
    proof {
        assert(cs@ =~= spec_initial_points(data@, k as nat, s));
        assert(exists|sd: u64| cs@ == spec_initial_points(data@, k as nat, sd)) by {
            assert(cs@ == spec_initial_points(data@, k as nat, s));
        }
        assert forall|j: int| 0 <= j < cs@.len() implies exists|i2: int|
            0 <= i2 < data@.len() && #[trigger] cs@[j] == data@[i2] by {
            assert(cs@[j] == data@[chosen@[j] as int]);
        }
    }
    cs
}

} // verus!
