use vstd::prelude::*;

use crate::types::{all_in_range, Color4, COORD_MAX};

verus! {

/// The square of an integer.
pub open spec fn sq(x: int) -> int {
    x * x
}

/// Squared Euclidean distance between two four-channel color vectors.
/// No square root is taken anywhere in the library: every comparison
/// works on squared values.
pub open spec fn dist_sq(x: Color4, y: Color4) -> int {
    sq(x.r - y.r) + sq(x.g - y.g) + sq(x.b - y.b) + sq(x.a - y.a)
}

/// A value strictly above every reachable squared distance; stands in for
/// "no distance seen yet" when minimizing.
pub const DIST_INF: u64 = 0x1_0000_0000_0000;

proof fn lemma_sq_bounds(x: int, m: int)
    by (nonlinear_arith)
    requires
        -m <= x <= m,
        0 <= m,
    ensures
        0 <= sq(x) <= m * m,
{
}

/// Squared distances between vectors with channels at most `COORD_MAX`
/// stay strictly below `2^34` (and so below `DIST_INF`).
pub proof fn lemma_dist_sq_range(x: Color4, y: Color4)
    requires
        x.in_range(COORD_MAX as int),
        y.in_range(COORD_MAX as int),
    ensures
        0 <= dist_sq(x, y) < 0x4_0000_0000,
        dist_sq(x, y) < DIST_INF,
{
    lemma_sq_bounds(x.r - y.r, COORD_MAX as int);
    lemma_sq_bounds(x.g - y.g, COORD_MAX as int);
    lemma_sq_bounds(x.b - y.b, COORD_MAX as int);
    lemma_sq_bounds(x.a - y.a, COORD_MAX as int);
    assert((COORD_MAX as int) * (COORD_MAX as int) < 0x1_0000_0000) by (nonlinear_arith);
}

/// Two vectors at squared distance zero are equal channel for channel.
pub proof fn lemma_dist_sq_zero(x: Color4, y: Color4)
    requires
        dist_sq(x, y) == 0,
    ensures
        x == y,
{
    assert(x.r == y.r && x.g == y.g && x.b == y.b && x.a == y.a) by (nonlinear_arith)
        requires
            sq(x.r - y.r) + sq(x.g - y.g) + sq(x.b - y.b) + sq(x.a - y.a) == 0;
}

/// Computes `dist_sq` on vectors whose channels fit in 16 bits.
pub fn squared_distance(x: &Color4, y: &Color4) -> (d: u64)
    requires
        x.in_range(COORD_MAX as int),
        y.in_range(COORD_MAX as int),
    ensures
        d == dist_sq(*x, *y),
{
    proof {
        lemma_dist_sq_range(*x, *y);
        lemma_sq_bounds(x.r - y.r, COORD_MAX as int);
        lemma_sq_bounds(x.g - y.g, COORD_MAX as int);
        lemma_sq_bounds(x.b - y.b, COORD_MAX as int);
        lemma_sq_bounds(x.a - y.a, COORD_MAX as int);
    }
    let dr: i64 = x.r as i64 - y.r as i64;
    let dg: i64 = x.g as i64 - y.g as i64;
    let db: i64 = x.b as i64 - y.b as i64;
    let da: i64 = x.a as i64 - y.a as i64;
    (dr * dr + dg * dg + db * db + da * da) as u64
}

/// Index of the centroid nearest to `p` among the first `n` centroids,
/// ties resolved toward the lowest index.
pub open spec fn closest_prefix(p: Color4, cs: Seq<Color4>, n: int) -> int
    decreases n,
{
    if n <= 1 {
        0
    } else {
        let prev = closest_prefix(p, cs, n - 1);
        if dist_sq(p, cs[n - 1]) < dist_sq(p, cs[prev]) {
            n - 1
        } else {
            prev
        }
    }
}

/// Index of the centroid nearest to `p`, ties resolved toward the lowest index.
pub open spec fn spec_closest(p: Color4, cs: Seq<Color4>) -> int {
    closest_prefix(p, cs, cs.len() as int)
}

pub proof fn lemma_closest_prefix(p: Color4, cs: Seq<Color4>, n: int)
    requires
        1 <= n <= cs.len(),
    ensures
        0 <= closest_prefix(p, cs, n) < n,
        forall|j: int|
            0 <= j < n ==> dist_sq(p, cs[closest_prefix(p, cs, n)]) <= #[trigger] dist_sq(p, cs[j]),
        forall|j: int|
            0 <= j < closest_prefix(p, cs, n) ==> #[trigger] dist_sq(p, cs[j]) > dist_sq(
                p,
                cs[closest_prefix(p, cs, n)],
            ),
    decreases n,
{
    if n > 1 {
        lemma_closest_prefix(p, cs, n - 1);
    }
}

/// What `spec_closest` returns: the lowest index attaining the minimum
/// squared distance.
pub proof fn lemma_spec_closest(p: Color4, cs: Seq<Color4>)
    requires
        cs.len() >= 1,
    ensures
        0 <= spec_closest(p, cs) < cs.len(),
        forall|j: int|
            0 <= j < cs.len() ==> dist_sq(p, cs[spec_closest(p, cs)]) <= #[trigger] dist_sq(p, cs[j]),
        forall|j: int|
            0 <= j < spec_closest(p, cs) ==> #[trigger] dist_sq(p, cs[j]) > dist_sq(p, cs[spec_closest(p, cs)]),
{
    lemma_closest_prefix(p, cs, cs.len() as int);
}

/// If `a` is strictly nearer to `p` than every other centroid, then `a`
/// is the nearest-centroid index.
pub proof fn lemma_closest_unique(p: Color4, cs: Seq<Color4>, a: int)
    requires
        0 <= a < cs.len(),
        forall|j: int| 0 <= j < cs.len() && j != a ==> #[trigger] dist_sq(p, cs[j]) > dist_sq(p, cs[a]),
    ensures
        spec_closest(p, cs) == a,
{
    lemma_spec_closest(p, cs);
    let c = spec_closest(p, cs);
    if c != a {
        assert(dist_sq(p, cs[c]) <= dist_sq(p, cs[a]));
        assert(dist_sq(p, cs[c]) > dist_sq(p, cs[a]));
    }
}

/// Returns the index of the centroid nearest to `pixel`, with ties going
/// to the lowest index.
pub fn find_closest_centroid(pixel: &Color4, centroids: &Vec<Color4>) -> (idx: usize)
    requires
        centroids.len() >= 1,
        pixel.in_range(COORD_MAX as int),
        all_in_range(centroids@, COORD_MAX as int),
    ensures
        idx == spec_closest(*pixel, centroids@),
        idx < centroids.len(),
{
    let mut min_index: usize = 0;
    let mut min_distance: u64 = squared_distance(pixel, &centroids[0]);
    let mut i: usize = 1;
    while i < centroids.len()
        invariant
            1 <= i <= centroids.len(),
            centroids.len() >= 1,
            pixel.in_range(COORD_MAX as int),
            all_in_range(centroids@, COORD_MAX as int),
            min_index == closest_prefix(*pixel, centroids@, i as int),
            0 <= min_index < i,
            min_distance == dist_sq(*pixel, centroids@[min_index as int]),
        decreases centroids.len() - i,
    {
        let d = squared_distance(pixel, &centroids[i]);
        if d < min_distance {
            min_distance = d;
            min_index = i;
        }
        i = i + 1;
    }
    proof {
        lemma_spec_closest(*pixel, centroids@);
    }
    min_index
}

/// Convergence holds when every centroid moved by a squared distance
/// strictly below the squared tolerance.
pub open spec fn spec_converged(before: Seq<Color4>, after: Seq<Color4>, tolerance: u32) -> bool {
    forall|i: int|
        0 <= i < before.len() ==> dist_sq(before[i], after[i]) < (tolerance as int) * (
        tolerance as int)
}

/// The convergence test every engine shares: every centroid's squared
/// displacement must be strictly below the squared tolerance.
pub fn has_converged(
    initial_centroids: &Vec<Color4>,
    new_centroids: &Vec<Color4>,
    tolerance: u32,
) -> (r: bool)
    requires
        initial_centroids.len() == new_centroids.len(),
        all_in_range(initial_centroids@, COORD_MAX as int),
        all_in_range(new_centroids@, COORD_MAX as int),
    ensures
        r == spec_converged(initial_centroids@, new_centroids@, tolerance),
{
    proof {
        assert((tolerance as int) * (tolerance as int) < 0x1_0000_0000_0000_0000) by (nonlinear_arith)
            requires
                tolerance < 0x1_0000_0000;
    }
    let tol_sq: u64 = (tolerance as u64) * (tolerance as u64);
    let mut i: usize = 0;
    while i < initial_centroids.len()
        invariant
            0 <= i <= initial_centroids.len(),
            initial_centroids.len() == new_centroids.len(),
            all_in_range(initial_centroids@, COORD_MAX as int),
            all_in_range(new_centroids@, COORD_MAX as int),
            tol_sq == (tolerance as int) * (tolerance as int),
            forall|j: int|
                0 <= j < i ==> dist_sq(initial_centroids@[j], new_centroids@[j]) < (
                tolerance as int) * (tolerance as int),
        decreases initial_centroids.len() - i,
    {
        let d = squared_distance(&initial_centroids[i], &new_centroids[i]);
        if d >= tol_sq {
            return false;
        }
        i = i + 1;
    }
    true
}

/// Largest squared displacement between paired centroids of the two
/// sequences, over the first `n` pairs; zero when `n` is zero.
pub open spec fn max_movement_prefix(before: Seq<Color4>, after: Seq<Color4>, n: int) -> int
    decreases n,
{
    if n <= 0 {
        0
    } else {
        let m = max_movement_prefix(before, after, n - 1);
        if dist_sq(before[n - 1], after[n - 1]) > m {
            dist_sq(before[n - 1], after[n - 1])
        } else {
            m
        }
    }
}

/// Largest squared displacement between corresponding centroids of the
/// two sequences; zero when the sequences are empty.
pub fn calculate_max_centroid_movement(
    initial_centroids: &Vec<Color4>,
    new_centroids: &Vec<Color4>,
) -> (m: u64)
    requires
        initial_centroids.len() == new_centroids.len(),
        all_in_range(initial_centroids@, COORD_MAX as int),
        all_in_range(new_centroids@, COORD_MAX as int),
    ensures
        m == max_movement_prefix(initial_centroids@, new_centroids@, initial_centroids.len() as int),
{
    let mut m: u64 = 0;
    let mut i: usize = 0;
    while i < initial_centroids.len()
        invariant
            0 <= i <= initial_centroids.len(),
            initial_centroids.len() == new_centroids.len(),
            all_in_range(initial_centroids@, COORD_MAX as int),
            all_in_range(new_centroids@, COORD_MAX as int),
            m == max_movement_prefix(initial_centroids@, new_centroids@, i as int),
        decreases initial_centroids.len() - i,
    {
        let d = squared_distance(&initial_centroids[i], &new_centroids[i]);
        if d > m {
            m = d;
        }
        i = i + 1;
    }
    m
}

/// Smallest squared distance from `cs[j]` to any other centroid of the
/// first `n`, or `DIST_INF` when no other centroid exists there.
pub open spec fn sibling_prefix(cs: Seq<Color4>, j: int, n: int) -> int
    decreases n,
{
    if n <= 0 {
        DIST_INF as int
    } else {
        let m = sibling_prefix(cs, j, n - 1);
        if n - 1 != j && dist_sq(cs[j], cs[n - 1]) < m {
            dist_sq(cs[j], cs[n - 1])
        } else {
            m
        }
    }
}

/// Smallest squared distance from `cs[j]` to any sibling centroid.
pub open spec fn spec_min_sibling(cs: Seq<Color4>, j: int) -> int {
    sibling_prefix(cs, j, cs.len() as int)
}

pub proof fn lemma_sibling_prefix(cs: Seq<Color4>, j: int, n: int)
    requires
        0 <= n <= cs.len(),
    ensures
        forall|l: int| 0 <= l < n && l != j ==> sibling_prefix(cs, j, n) <= #[trigger] dist_sq(cs[j], cs[l]),
        sibling_prefix(cs, j, n) <= DIST_INF as int,
    decreases n,
{
    if n > 0 {
        lemma_sibling_prefix(cs, j, n - 1);
    }
}

/// Smallest squared distance from `cs[j]` to any other centroid of `cs`;
/// `DIST_INF` when `cs` holds no other centroid.
pub fn min_sibling_distance(cs: &Vec<Color4>, j: usize) -> (m: u64)
    requires
        j < cs.len(),
        all_in_range(cs@, COORD_MAX as int),
    ensures
        m == spec_min_sibling(cs@, j as int),
{
    let mut m: u64 = DIST_INF;
    let mut l: usize = 0;
    while l < cs.len()
        invariant
            0 <= l <= cs.len(),
            j < cs.len(),
            all_in_range(cs@, COORD_MAX as int),
            m == sibling_prefix(cs@, j as int, l as int),
        decreases cs.len() - l,
    {
        if l != j {
            let d = squared_distance(&cs[j], &cs[l]);
            if d < m {
                m = d;
            }
        }
        l = l + 1;
    }
    m
}

/// Smallest value among `spec_min_sibling(cs, j)` for `j` below `n`;
/// `DIST_INF` when `n` is zero.
pub open spec fn min_pair_prefix(cs: Seq<Color4>, n: int) -> int
    decreases n,
{
    if n <= 0 {
        DIST_INF as int
    } else {
        let m = min_pair_prefix(cs, n - 1);
        if spec_min_sibling(cs, n - 1) < m {
            spec_min_sibling(cs, n - 1)
        } else {
            m
        }
    }
}

/// Smallest squared distance between any two distinct centroids;
/// `DIST_INF` when fewer than two centroids exist.
pub fn calculate_min_centroid_distance(centroids: &Vec<Color4>) -> (m: u64)
    requires
        all_in_range(centroids@, COORD_MAX as int),
    ensures
        m == min_pair_prefix(centroids@, centroids.len() as int),
{
    let mut m: u64 = DIST_INF;
    let mut j: usize = 0;
    while j < centroids.len()
        invariant
            0 <= j <= centroids.len(),
            all_in_range(centroids@, COORD_MAX as int),
            m == min_pair_prefix(centroids@, j as int),
        decreases centroids.len() - j,
    {
        let s = min_sibling_distance(centroids, j);
        if s < m {
            m = s;
        }
        j = j + 1;
    }
    m
}

/// Floor of the square root of `n`, for `n` below `2^36`.
pub fn int_sqrt_floor(n: u64) -> (r: u64)
    requires
        n < 0x10_0000_0000,
    ensures
        r * r <= n,
        (r + 1) * (r + 1) > n,
        r <= 0x4_0000,
{
    let mut lo: u64 = 0;
    let mut hi: u64 = 0x4_0000;
    proof {
        assert((0x4_0000 as int) * (0x4_0000 as int) > n) by (nonlinear_arith)
            requires
                n < 0x10_0000_0000;
    }
    while lo + 1 < hi
        invariant
            lo < hi <= 0x4_0000,
            lo * lo <= n,
            hi * hi > n,
        decreases hi - lo,
    {
        let mid = lo + (hi - lo) / 2;
        proof {
            assert((mid as int) * (mid as int) <= (0x4_0000 as int) * (0x4_0000 as int))
                by (nonlinear_arith)
                requires
                    0 <= mid <= 0x4_0000;
        }
        if mid * mid <= n {
            lo = mid;
        } else {
            hi = mid;
        }
    }
    lo
}

/// Ceiling of the square root of `n`, for `n` below `2^36`: the least
/// integer whose square is at least `n`.
pub fn int_sqrt_ceil(n: u64) -> (r: u64)
    requires
        n < 0x10_0000_0000,
    ensures
        r * r >= n,
        r > 0 ==> (r - 1) * (r - 1) < n,
        r <= 0x4_0001,
{
    let s = int_sqrt_floor(n);
    if s * s == n {
        proof {
            if s > 0 {
                assert((s - 1) * (s - 1) < s * s) by (nonlinear_arith)
                    requires
                        s > 0;
            }
        }
        s
    } else {
        s + 1
    }
}

} // verus!
