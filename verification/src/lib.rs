//! Color quantization by k-means clustering over integer color vectors.
//!
//! The clustering engines (a baseline full-scan engine, a bound-pruning
//! engine, and a model of a data-parallel engine) work on byte-valued
//! colors and fixed-point centroids, so every backend computes the same,
//! fully deterministic result for a given seed.

pub mod config;
pub mod distance;
pub mod engine;
pub mod gpu;
pub mod hamerly;
pub mod initializer;
pub mod kmeans;
pub mod lloyd;
pub mod quantize;
pub mod remap;
pub mod rng;
pub mod text;
pub mod types;
pub mod utils;

pub use crate::config::{Initializer, KMeansAlgorithm, KMeansConfig, KMeansError, KMeansResult};
pub use crate::distance::{
    calculate_max_centroid_movement, calculate_min_centroid_distance, find_closest_centroid,
    has_converged,
};
pub use crate::gpu::KMeansGpu;
pub use crate::kmeans::{KMeans, KMeansCPU};
pub use crate::quantize::{ColorCruncher, ColorCruncherBuilder};
pub use crate::types::{Color3, Color4};

use vstd::prelude::*;

verus! {

/// Iteration cap of the flat three-channel interface.
pub const REDUCE_MAX_ITERATIONS: usize = 300;

/// Convergence tolerance of the flat three-channel interface, in
/// `1 / SCALE` raw channel units.
pub const REDUCE_TOLERANCE: u32 = 5;

/// The chosen starting points for three-channel data, in raw units.
pub open spec fn spec_initial_points3(data: Seq<Color3>, k: nat, seed: u64) -> Seq<Color3> {
    let pts = crate::initializer::spec_initial_points(crate::types::spec_to4_seq(data), k, seed);
    Seq::new(pts.len(), |j: int| Color3 { r: pts[j].r, g: pts[j].g, b: pts[j].b })
}

/// Distance-squared-weighted seeding over three-channel data points,
/// with a seed drawn once from machine entropy: returns `k` starting
/// centroids drawn from `data` (empty for empty data).
pub fn initialize_centroids(data: &Vec<Color3>, k: usize) -> (cs: Vec<Color3>)
    requires
        data.len() <= crate::types::MAX_POINTS,
        forall|i: int|
            0 <= i < data.len() ==> (#[trigger] data@[i]).in_range(crate::types::CHANNEL_MAX as int),
        k >= 1,
    ensures
        data.len() == 0 ==> cs.len() == 0,
        data.len() >= 1 ==> cs.len() == k,
        forall|j: int|
            0 <= j < cs.len() ==> exists|i: int|
                0 <= i < data.len() && #[trigger] cs@[j] == data@[i],
        exists|s: u64| cs@ == spec_initial_points3(data@, k as nat, s),
{
    let mut data4: Vec<Color4> = Vec::new();
    let mut i: usize = 0;
    while i < data.len()
        invariant
            0 <= i <= data.len(),
            forall|l: int|
                0 <= l < data.len() ==> (#[trigger] data@[l]).in_range(
                    crate::types::CHANNEL_MAX as int,
                ),
            data4.len() == i,
            forall|l: int| 0 <= l < i ==> data4@[l] == crate::types::spec_to4_seq(data@)[l],
        decreases data.len() - i,
    {
        data4.push(data[i].to4());
        i = i + 1;
    }
    proof {
        assert(data4@ =~= crate::types::spec_to4_seq(data@));
        assert forall|l: int| 0 <= l < data4@.len() implies (#[trigger] data4@[l]).in_range(
            crate::types::CHANNEL_MAX as int,
        ) by {
            assert(data@[l].in_range(crate::types::CHANNEL_MAX as int));
        }
    }
    let cs4 = crate::initializer::initialize_centroids(&data4, k, None);
    let mut cs: Vec<Color3> = Vec::new();
    let mut j: usize = 0;
    while j < cs4.len()
        invariant
            0 <= j <= cs4.len(),
            cs.len() == j,
            forall|l: int|
                0 <= l < j ==> #[trigger] cs@[l] == (Color3 {
                    r: cs4@[l].r,
                    g: cs4@[l].g,
                    b: cs4@[l].b,
                }),
        decreases cs4.len() - j,
    {
        cs.push(cs4[j].to3());
        j = j + 1;
    }
    proof {
        let s0 = choose|s: u64|
            cs4@ == crate::initializer::spec_initial_points(data4@, k as nat, s);
        assert(cs@ =~= spec_initial_points3(data@, k as nat, s0));
        assert(exists|s: u64| cs@ == spec_initial_points3(data@, k as nat, s)) by {
            assert(cs@ == spec_initial_points3(data@, k as nat, s0));
        }
        assert forall|l: int| 0 <= l < cs@.len() implies exists|i2: int|
            0 <= i2 < data@.len() && #[trigger] cs@[l] == data@[i2] by {
            let i2 = choose|i2: int| 0 <= i2 < data4@.len() && cs4@[l] == data4@[i2];
            assert(cs@[l] == data@[i2]);
        }
    }
    cs
}

/// The canonical flat three-channel run: the lifted data clustered with
/// the flat interface's tolerance and iteration cap under weighted
/// seeding.
pub open spec fn spec_kmeans3(data: Seq<Color3>, k: nat, seed: u64) -> (Seq<usize>, Seq<Color4>) {
    crate::engine::spec_kmeans_run(
        crate::types::spec_to4_seq(data),
        k,
        REDUCE_TOLERANCE,
        REDUCE_MAX_ITERATIONS as nat,
        Initializer::KMeansPlusPlus,
        seed,
    )
}

/// The indices among the first `n` that are assigned to cluster `j`,
/// in ascending order.
pub open spec fn spec_members(assigns: Seq<usize>, j: int, n: int) -> Seq<usize>
    decreases n,
{
    if n <= 0 {
        Seq::empty()
    } else {
        let prev = spec_members(assigns, j, n - 1);
        if assigns[n - 1] == j {
            prev.push((n - 1) as usize)
        } else {
            prev
        }
    }
}

/// The flat run returned exactly the canonical clustering for seed `s`:
/// cluster `j` lists the indices of its points in order, and each
/// centroid is the canonical one rounded down to whole channel units.
pub open spec fn kmeans3_matches(
    data: Seq<Color3>,
    k: nat,
    seed: u64,
    clusters: Seq<Vec<usize>>,
    cents: Seq<Color3>,
) -> bool {
    let run = spec_kmeans3(data, k, seed);
    &&& clusters.len() == k
    &&& forall|j: int|
        0 <= j < k ==> (#[trigger] clusters[j])@ == spec_members(run.0, j, data.len() as int)
    &&& cents.len() == k
    &&& forall|j: int| 0 <= j < k ==> #[trigger] cents[j] == run.1[j].spec_floor3()
}

/// A k-means clustering interface for flat three-channel color data:
/// runs the baseline engine with an entropy-drawn seed and returns the
/// clusters as per-cluster index lists, with centroids rounded down to
/// whole channel units. Unlike the façade it performs no distinct-color
/// check: a cluster count above the distinct-color count simply leaves
/// clusters empty.
pub fn kmeans_3chan(data: &Vec<Color3>, k: usize) -> (r: (Vec<Vec<usize>>, Vec<Color3>))
    requires
        data.len() <= crate::types::MAX_POINTS,
        forall|i: int|
            0 <= i < data.len() ==> (#[trigger] data@[i]).in_range(crate::types::CHANNEL_MAX as int),
        k >= 1,
    ensures
        r.0.len() == k,
        data.len() == 0 ==> r.1.len() == 0,
        data.len() >= 1 ==> r.1.len() == k,
        data.len() >= 1 ==> exists|s: u64| kmeans3_matches(data@, k as nat, s, r.0@, r.1@),
{
    if data.len() == 0 {
        let mut clusters: Vec<Vec<usize>> = Vec::new();
        let mut j: usize = 0;
        while j < k
            invariant
                clusters.len() == j,
                j <= k,
            decreases k - j,
        {
            clusters.push(Vec::new());
            j = j + 1;
        }
        return (clusters, Vec::new());
    }
    let mut data4: Vec<Color4> = Vec::new();
    let mut i: usize = 0;
    while i < data.len()
        invariant
            0 <= i <= data.len(),
            forall|l: int|
                0 <= l < data.len() ==> (#[trigger] data@[l]).in_range(
                    crate::types::CHANNEL_MAX as int,
                ),
            data4.len() == i,
            forall|l: int| 0 <= l < i ==> data4@[l] == crate::types::spec_to4_seq(data@)[l],
        decreases data.len() - i,
    {
        data4.push(data[i].to4());
        i = i + 1;
    }
    proof {
        assert(data4@ =~= crate::types::spec_to4_seq(data@));
        assert forall|l: int| 0 <= l < data4@.len() implies (#[trigger] data4@[l]).in_range(
            crate::types::CHANNEL_MAX as int,
        ) by {
            assert(data@[l].in_range(crate::types::CHANNEL_MAX as int));
        }
    }
    let seed = crate::rng::entropy_u64();
    let mut rng = crate::rng::SeededRng::new(seed);
    let cs0 = crate::initializer::initialize_centroids_scaled(
        &data4,
        k,
        Initializer::KMeansPlusPlus,
        &mut rng,
    );
    let run = crate::lloyd::kmeans_lloyd(&data4, cs0, REDUCE_TOLERANCE, REDUCE_MAX_ITERATIONS);
    let assigns = run.0;
    let cents4 = run.1;
    let mut clusters: Vec<Vec<usize>> = Vec::new();
    let mut j: usize = 0;
    while j < k
        invariant
            clusters.len() == j,
            j <= k,
            assigns.len() == data.len(),
            forall|l: int|
                0 <= l < j ==> (#[trigger] clusters@[l])@ == spec_members(
                    assigns@,
                    l,
                    data.len() as int,
                ),
        decreases k - j,
    {
        let mut members: Vec<usize> = Vec::new();
        let mut i2: usize = 0;
        while i2 < assigns.len()
            invariant
                0 <= i2 <= assigns.len(),
                members@ == spec_members(assigns@, j as int, i2 as int),
            decreases assigns.len() - i2,
        {
            if assigns[i2] == j {
                members.push(i2);
            }
            i2 = i2 + 1;
        }
        clusters.push(members);
        j = j + 1;
    }
    let mut cents3: Vec<Color3> = Vec::new();
    let mut j2: usize = 0;
    while j2 < cents4.len()
        invariant
            0 <= j2 <= cents4.len(),
            cents3.len() == j2,
            forall|l: int| 0 <= l < j2 ==> #[trigger] cents3@[l] == cents4@[l].spec_floor3(),
        decreases cents4.len() - j2,
    {
        cents3.push(cents4[j2].floor3());
        j2 = j2 + 1;
    }
    proof {
        assert(kmeans3_matches(data@, k as nat, seed, clusters@, cents3@));
        assert(exists|s: u64| kmeans3_matches(data@, k as nat, s, clusters@, cents3@)) by {
            assert(kmeans3_matches(data@, k as nat, seed, clusters@, cents3@));
        }
    }
    (clusters, cents3)
}

/// What color reduction returns when the engine ran with seed `s`.
pub open spec fn spec_reduced(
    pixels: Seq<u8>,
    channels: int,
    rate: int,
    k: nat,
    seed: u64,
) -> Seq<u8> {
    let sampled = crate::remap::spec_sampled(pixels, channels, rate, false);
    let cents = crate::engine::spec_kmeans_run(
        sampled,
        k,
        REDUCE_TOLERANCE,
        REDUCE_MAX_ITERATIONS as nat,
        Initializer::KMeansPlusPlus,
        seed,
    ).1;
    crate::remap::spec_remap(pixels, channels, crate::quantize::spec_palette_of(cents))
}

/// Reduces the color space of a flat pixel buffer. Palette discovery
/// samples every `sample_rate`-th pixel's color channels (the fourth
/// channel never enters the clustering here); when the sampled colors
/// already fit the budget, the input is returned unchanged, byte for
/// byte. Otherwise every pixel — sampled or not — is replaced by its
/// nearest palette entry, with the fourth channel copied through, and
/// the output keeps the input's exact length and layout.
pub fn reduce_colorspace(
    pixels: &Vec<u8>,
    max_colors: usize,
    sample_rate: usize,
    channels: usize,
) -> (r: Vec<u8>)
    requires
        channels == 3 || channels == 4,
        1 <= sample_rate <= 0x100_0000,
        max_colors >= 1,
        pixels.len() <= 0x300_0000,
    ensures
        crate::utils::spec_distinct_colors(
            crate::remap::spec_sampled(pixels@, channels as int, sample_rate as int, false),
        ) <= max_colors ==> r@ == pixels@,
        crate::utils::spec_distinct_colors(
            crate::remap::spec_sampled(pixels@, channels as int, sample_rate as int, false),
        ) > max_colors ==> {
            &&& r@.len() == pixels@.len()
            &&& exists|s: u64|
                r@ == spec_reduced(
                    pixels@,
                    channels as int,
                    sample_rate as int,
                    max_colors as nat,
                    s,
                )
        },
{
    let sampled = crate::remap::sample_colors(pixels, channels, sample_rate, false);
    let distinct = crate::utils::num_distinct_colors(&sampled);
    if distinct <= max_colors {
        return crate::quantize::copy_bytes(pixels);
    }
    proof {
        sampled@.lemma_cardinality_of_set();
    }
    let seed = crate::rng::entropy_u64();
    let mut rng = crate::rng::SeededRng::new(seed);
    let cs0 = crate::initializer::initialize_centroids_scaled(
        &sampled,
        max_colors,
        Initializer::KMeansPlusPlus,
        &mut rng,
    );
    let run = crate::lloyd::kmeans_lloyd(&sampled, cs0, REDUCE_TOLERANCE, REDUCE_MAX_ITERATIONS);
    let cents = run.1;
    proof {
        crate::engine::lemma_kmeans_run_wf(
            sampled@,
            max_colors as nat,
            REDUCE_TOLERANCE,
            REDUCE_MAX_ITERATIONS as nat,
            Initializer::KMeansPlusPlus,
            seed,
        );
    }
    let palette = crate::quantize::palette_bytes(&cents);
    let out = crate::remap::remap_pixels(pixels, channels, &palette);
    proof {
        assert(out@ == spec_reduced(
            pixels@,
            channels as int,
            sample_rate as int,
            max_colors as nat,
            seed,
        ));
        assert(exists|s: u64|
            out@ == spec_reduced(
                pixels@,
                channels as int,
                sample_rate as int,
                max_colors as nat,
                s,
            )) by {
            assert(out@ == spec_reduced(
                pixels@,
                channels as int,
                sample_rate as int,
                max_colors as nat,
                seed,
            ));
        }
    }
    out
}

} // verus!
