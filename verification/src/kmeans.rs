use vstd::prelude::*;

pub use crate::distance::find_closest_centroid;

use crate::config::{Initializer, KMeansAlgorithm, KMeansConfig, KMeansError, KMeansResult};
use crate::engine::{lemma_kmeans_run_wf, spec_kmeans_run};
use crate::gpu::{kmeans_gpu_engine, KMeansGpu};
use crate::hamerly::kmeans_hamerly;
use crate::initializer::initialize_centroids_scaled;
use crate::lloyd::kmeans_lloyd;
use crate::rng::SeededRng;
use crate::text;
use crate::types::{all_in_range, Color3, Color4, CHANNEL_MAX, COORD_MAX, MAX_POINTS};
use crate::utils::{num_distinct_colors, spec_distinct_colors};

verus! {

/// The run produced exactly the canonical clustering for this seed.
/// Whatever pins the seed pins the whole result: repeated runs with one
/// seed, on any backend, return the same assignments and centroids.
pub open spec fn run_matches(
    data: Seq<Color4>,
    cfg: KMeansConfig,
    seed: u64,
    assigns: Seq<usize>,
    cents: Seq<Color4>,
) -> bool {
    (assigns, cents) == spec_kmeans_run(
        data,
        cfg.k as nat,
        cfg.tolerance,
        cfg.max_iterations as nat,
        cfg.initializer,
        seed,
    )
}

/// The full contract of one validated run. `cpu_only` marks the
/// sequential engine, which rejects the parallel algorithm variants
/// instead of silently falling back.
pub open spec fn run_post(
    data: Seq<Color4>,
    cfg: KMeansConfig,
    cpu_only: bool,
    r: KMeansResult<Color4>,
) -> bool {
    &&& (data.len() == 0 ==> (r matches Ok(p) && p.0@ == Seq::<usize>::empty() && p.1@
        == Seq::<Color4>::empty()))
    &&& (data.len() > 0 && cfg.k == 0 ==> (r matches Err(e) && e.message@
        == text::spec_k_zero_message()))
    &&& (data.len() > 0 && cfg.k >= 1 && spec_distinct_colors(data) < cfg.k ==> (r matches Err(e)
        && e.message@ == text::spec_distinct_error_message(spec_distinct_colors(data))))
    &&& (data.len() > 0 && cfg.k >= 1 && spec_distinct_colors(data) >= cfg.k && cpu_only
        && !cfg.algorithm.is_cpu() ==> (r matches Err(e) && e.message@
        == text::spec_unsupported_message(cfg.algorithm.spec_name())))
    &&& (data.len() > 0 && cfg.k >= 1 && spec_distinct_colors(data) >= cfg.k && (
    cfg.algorithm.is_cpu() || !cpu_only) ==> (r matches Ok(p) && {
        &&& (cfg.seed matches Some(s) ==> run_matches(data, cfg, s, p.0@, p.1@))
        &&& exists|s: u64| run_matches(data, cfg, s, p.0@, p.1@)
        &&& p.0@.len() == data.len()
        &&& forall|i: int| 0 <= i < p.0@.len() ==> #[trigger] p.0@[i] < cfg.k
        &&& p.1@.len() == cfg.k
        &&& all_in_range(p.1@, COORD_MAX as int)
    }))
}

/// Validates the run's preconditions, seeds the starting centroids, and
/// drives the selected engine. Empty input yields empty output with no
/// error; a cluster count of zero, or one above the exact distinct-color
/// count, is a configuration error raised before any iteration.
pub(crate) fn run_validated(data: &Vec<Color4>, cfg: &KMeansConfig, cpu_only: bool) -> (r:
    KMeansResult<Color4>)
    requires
        data.len() <= MAX_POINTS,
        all_in_range(data@, CHANNEL_MAX as int),
    ensures
        run_post(data@, *cfg, cpu_only, r),
{
    if data.len() == 0 {
        let assigns: Vec<usize> = Vec::new();
        let cents: Vec<Color4> = Vec::new();
        proof {
            assert(assigns@ =~= Seq::<usize>::empty());
            assert(cents@ =~= Seq::<Color4>::empty());
        }
        return Ok((assigns, cents));
    }
    if cfg.k == 0 {
        return Err(KMeansError::new(text::k_zero_message()));
    }
    let distinct = num_distinct_colors(data);
    if distinct < cfg.k {
        return Err(KMeansError::new(text::distinct_error_message(distinct as u64)));
    }
    proof {
        data@.lemma_cardinality_of_set();
    }
    if cpu_only && !cfg.algorithm.is_cpu_algorithm() {
        return Err(KMeansError::new(text::unsupported_algorithm_message(cfg.algorithm.name())));
    }
    let seed: u64 = match cfg.seed {
        Some(s) => s,
        None => crate::rng::entropy_u64(),
    };
    let mut rng = SeededRng::new(seed);
    let cs0 = initialize_centroids_scaled(data, cfg.k, cfg.initializer, &mut rng);
    let result = match cfg.algorithm {
        KMeansAlgorithm::Lloyd => kmeans_lloyd(data, cs0, cfg.tolerance, cfg.max_iterations),
        KMeansAlgorithm::Hamerly => kmeans_hamerly(data, cs0, cfg.tolerance, cfg.max_iterations),
        _ => kmeans_gpu_engine(data, cs0, cfg.tolerance, cfg.max_iterations),
    };
    proof {
        lemma_kmeans_run_wf(
            data@,
            cfg.k as nat,
            cfg.tolerance,
            cfg.max_iterations as nat,
            cfg.initializer,
            seed,
        );
        assert(run_matches(data@, *cfg, seed, result.0@, result.1@));
        assert(exists|s: u64| run_matches(data@, *cfg, s, result.0@, result.1@)) by {
            assert(run_matches(data@, *cfg, seed, result.0@, result.1@));
        }
    }
    Ok(result)
}

/// The sequential engine: carries a configuration and runs the baseline
/// or bound-pruning algorithm on the calling thread.
#[derive(Debug, Clone)]
pub struct KMeansCPU(pub KMeansConfig);

impl KMeansCPU {
    pub fn from_config(config: KMeansConfig) -> (s: KMeansCPU)
        ensures
            s.0 == config,
    {
        KMeansCPU(config)
    }

    pub fn with_k(self, k: usize) -> (s: KMeansCPU)
        ensures
            s.0 == (KMeansConfig { k, ..self.0 }),
    {
        let mut c = self.0;
        c.k = k;
        KMeansCPU(c)
    }

    pub fn with_max_iterations(self, max_iterations: usize) -> (s: KMeansCPU)
        ensures
            s.0 == (KMeansConfig { max_iterations, ..self.0 }),
    {
        let mut c = self.0;
        c.max_iterations = max_iterations;
        KMeansCPU(c)
    }

    /// Tolerance is given in `1 / SCALE` raw channel units.
    pub fn with_tolerance(self, tolerance: u32) -> (s: KMeansCPU)
        ensures
            s.0 == (KMeansConfig { tolerance, ..self.0 }),
    {
        let mut c = self.0;
        c.tolerance = tolerance;
        KMeansCPU(c)
    }

    pub fn with_algorithm(self, algorithm: KMeansAlgorithm) -> (s: KMeansCPU)
        ensures
            s.0 == (KMeansConfig { algorithm, ..self.0 }),
    {
        let mut c = self.0;
        c.algorithm = algorithm;
        KMeansCPU(c)
    }

    pub fn with_seed(self, seed: u64) -> (s: KMeansCPU)
        ensures
            s.0 == (KMeansConfig { seed: Some(seed), ..self.0 }),
    {
        let mut c = self.0;
        c.seed = Some(seed);
        KMeansCPU(c)
    }

    /// One blocking clustering run; see `run_post` for the exact contract.
    pub fn run(&self, data: &Vec<Color4>) -> (r: KMeansResult<Color4>)
        requires
            data.len() <= MAX_POINTS,
            all_in_range(data@, CHANNEL_MAX as int),
        ensures
            run_post(data@, self.0, true, r),
    {
        run_validated(data, &self.0, true)
    }
}

impl Default for KMeansCPU {
    /// The default sequential engine: three clusters, one hundred
    /// iterations, the tightest tolerance, baseline algorithm, weighted
    /// seeding, machine-entropy seed.
    fn default() -> (s: KMeansCPU)
        ensures
            s.0.k == 3,
            s.0.max_iterations == 100,
            s.0.tolerance == 1,
            s.0.algorithm == KMeansAlgorithm::Lloyd,
            s.0.initializer == Initializer::KMeansPlusPlus,
            s.0.seed is None,
    {
        KMeansCPU(
            KMeansConfig {
                k: 3,
                max_iterations: 100,
                tolerance: 1,
                algorithm: KMeansAlgorithm::Lloyd,
                initializer: Initializer::KMeansPlusPlus,
                seed: None,
            },
        )
    }
}

/// The façade over the backends: one construct/run contract, dispatching
/// to the sequential engine or to the parallel engine model.
#[derive(Debug, Clone)]
pub enum KMeans {
    Cpu(KMeansCPU),
    Gpu(KMeansGpu),
}

impl KMeans {
    /// A new façade over the sequential engine.
    pub fn new(config: KMeansConfig) -> (s: KMeans)
        ensures
            s matches KMeans::Cpu(c) && c.0 == config,
    {
        KMeans::Cpu(KMeansCPU(config))
    }

    /// Moves a sequential façade onto the parallel engine, keeping its
    /// configuration; a façade already on the parallel engine is
    /// returned unchanged.
    pub fn gpu(self) -> (s: KMeans)
        ensures
            (self matches KMeans::Cpu(c) ==> s matches KMeans::Gpu(g) && g.config == c.0),
            (self matches KMeans::Gpu(g) ==> s == self),
    {
        match self {
            KMeans::Cpu(cpu) => KMeans::Gpu(KMeansGpu::from_config(cpu.0)),
            KMeans::Gpu(g) => KMeans::Gpu(g),
        }
    }

    /// A new façade directly over the parallel engine.
    pub fn new_gpu(config: KMeansConfig) -> (s: KMeans)
        ensures
            s matches KMeans::Gpu(g) && g.config == config,
    {
        KMeans::Gpu(KMeansGpu::from_config(config))
    }

    /// Runs four-channel data on whichever backend the façade carries.
    /// Both backends meet the same contract; the parallel engine also
    /// accepts the parallel algorithm variants.
    pub fn run_vec4(&self, data: &Vec<Color4>) -> (r: KMeansResult<Color4>)
        requires
            data.len() <= MAX_POINTS,
            all_in_range(data@, CHANNEL_MAX as int),
        ensures
            (*self) matches KMeans::Cpu(c) ==> run_post(data@, c.0, true, r),
            (*self) matches KMeans::Gpu(g) ==> run_post(data@, g.config, false, r),
    {
        match self {
            KMeans::Cpu(cpu) => cpu.run(data),
            KMeans::Gpu(g) => run_validated(data, &g.config, false),
        }
    }

    /// Runs three-channel data: only the sequential backend carries it;
    /// the parallel engine asks for four-channel data instead.
    pub fn run_vec3(&self, data: &Vec<Color3>) -> (r: KMeansResult<Color3>)
        requires
            data.len() <= MAX_POINTS,
            forall|i: int| 0 <= i < data.len() ==> (#[trigger] data@[i]).in_range(CHANNEL_MAX as int),
        ensures
            (*self) matches KMeans::Cpu(c) ==> run_post3(data@, c.0, r),
            (*self) matches KMeans::Gpu(g) ==> (r matches Err(e) && e.message@
                == text::spec_gpu_vec3_message()),
    {
        match self {
            KMeans::Cpu(cpu) => {
                let mut data4: Vec<Color4> = Vec::new();
                let mut i: usize = 0;
                while i < data.len()
                    invariant
                        0 <= i <= data.len(),
                        forall|l: int|
                            0 <= l < data.len() ==> (#[trigger] data@[l]).in_range(
                                CHANNEL_MAX as int,
                            ),
                        data4.len() == i,
                        forall|l: int| 0 <= l < i ==> data4@[l] == crate::types::spec_to4_seq(
                            data@,
                        )[l],
                    decreases data.len() - i,
                {
                    data4.push(data[i].to4());
                    i = i + 1;
                }
                proof {
                    assert(data4@ =~= crate::types::spec_to4_seq(data@));
                    assert forall|l: int| 0 <= l < data4@.len() implies (
                    #[trigger] data4@[l]).in_range(CHANNEL_MAX as int) by {
                        assert(data@[l].in_range(CHANNEL_MAX as int));
                    }
                }
                let r4 = cpu.run(&data4);
                match r4 {
                    Ok(p) => {
                        let (assigns, cents4) = p;
                        let mut cents3: Vec<Color3> = Vec::new();
                        let mut j: usize = 0;
                        while j < cents4.len()
                            invariant
                                0 <= j <= cents4.len(),
                                cents3.len() == j,
                                forall|l: int|
                                    0 <= l < j ==> cents3@[l] == project3(cents4@)[l],
                            decreases cents4.len() - j,
                        {
                            cents3.push(cents4[j].to3());
                            j = j + 1;
                        }
                        proof {
                            assert(cents3@ =~= project3(cents4@));
                            let data4s = crate::types::spec_to4_seq(data@);
                            if data@.len() == 0 {
                                assert(cents3@ =~= Seq::<Color3>::empty());
                            }
                            if data@.len() > 0 && cpu.0.k >= 1 && spec_distinct_colors(data4s)
                                >= cpu.0.k && cpu.0.algorithm.is_cpu() {
                                let s = choose|s: u64|
                                    run_matches(data4s, cpu.0, s, assigns@, cents4@);
                                assert(run_matches3(data@, cpu.0, s, assigns@, cents3@));
                                assert(exists|s2: u64|
                                    run_matches3(data@, cpu.0, s2, assigns@, cents3@)) by {
                                    assert(run_matches3(data@, cpu.0, s, assigns@, cents3@));
                                }
                            }
                        }
                        Ok((assigns, cents3))
                    },
                    Err(e) => Err(e),
                }
            },
            KMeans::Gpu(_) => Err(KMeansError::new(text::gpu_vec3_message())),
        }
    }
}

impl KMeansGpu {
    /// One blocking run of the parallel engine: validates the same
    /// preconditions as the sequential façade and drives the iteration
    /// protocol to completion. Accepts every algorithm variant.
    pub fn run(&self, data: &Vec<Color4>) -> (r: KMeansResult<Color4>)
        requires
            data.len() <= MAX_POINTS,
            all_in_range(data@, CHANNEL_MAX as int),
        ensures
            run_post(data@, self.config, false, r),
    {
        run_validated(data, &self.config, false)
    }
}

/// The first three channels of every centroid, dropping the fourth.
pub open spec fn project3(cs: Seq<Color4>) -> Seq<Color3> {
    Seq::new(cs.len(), |j: int| Color3 { r: cs[j].r, g: cs[j].g, b: cs[j].b })
}

/// The run contract for three-channel data: the same as `run_post` on
/// the data lifted into four channels with a zero fourth channel, with
/// the returned centroids projected back onto three channels.
pub open spec fn run_post3(data: Seq<Color3>, cfg: KMeansConfig, r: KMeansResult<Color3>) -> bool {
    let data4 = crate::types::spec_to4_seq(data);
    &&& (data.len() == 0 ==> (r matches Ok(p) && p.0@ == Seq::<usize>::empty() && p.1@
        == Seq::<Color3>::empty()))
    &&& (data.len() > 0 && cfg.k == 0 ==> (r matches Err(e) && e.message@
        == text::spec_k_zero_message()))
    &&& (data.len() > 0 && cfg.k >= 1 && spec_distinct_colors(data4) < cfg.k ==> (r matches Err(e)
        && e.message@ == text::spec_distinct_error_message(spec_distinct_colors(data4))))
    &&& (data.len() > 0 && cfg.k >= 1 && spec_distinct_colors(data4) >= cfg.k
        && !cfg.algorithm.is_cpu() ==> (r matches Err(e) && e.message@
        == text::spec_unsupported_message(cfg.algorithm.spec_name())))
    &&& (data.len() > 0 && cfg.k >= 1 && spec_distinct_colors(data4) >= cfg.k
        && cfg.algorithm.is_cpu() ==> (r matches Ok(p) && {
        &&& (cfg.seed matches Some(s) ==> run_matches3(data, cfg, s, p.0@, p.1@))
        &&& exists|s: u64| run_matches3(data, cfg, s, p.0@, p.1@)
        &&& p.0@.len() == data.len()
        &&& forall|i: int| 0 <= i < p.0@.len() ==> #[trigger] p.0@[i] < cfg.k
        &&& p.1@.len() == cfg.k
    }))
}

/// The three-channel run produced exactly the canonical clustering of
/// the lifted data for this seed, with projected centroids.
pub open spec fn run_matches3(
    data: Seq<Color3>,
    cfg: KMeansConfig,
    seed: u64,
    assigns: Seq<usize>,
    cents3: Seq<Color3>,
) -> bool {
    let full = spec_kmeans_run(
        crate::types::spec_to4_seq(data),
        cfg.k as nat,
        cfg.tolerance,
        cfg.max_iterations as nat,
        cfg.initializer,
        seed,
    );
    assigns == full.0 && cents3 == project3(full.1)
}

/// Determinism: two runs over the same data, configuration and seed
/// return identical assignments and identical centroids — on any
/// backend, since all of them return the one canonical result.
pub proof fn lemma_run_deterministic(
    data: Seq<Color4>,
    cfg: KMeansConfig,
    seed: u64,
    assigns1: Seq<usize>,
    cents1: Seq<Color4>,
    assigns2: Seq<usize>,
    cents2: Seq<Color4>,
)
    requires
        run_matches(data, cfg, seed, assigns1, cents1),
        run_matches(data, cfg, seed, assigns2, cents2),
    ensures
        assigns1 == assigns2,
        cents1 == cents2,
{
}

/// Cross-algorithm agreement: runs whose configurations differ only in
/// the algorithm — baseline, bound-pruning, or any parallel variant —
/// return identical assignments and identical centroids for the same
/// data and seed. The canonical result never depends on the algorithm.
pub proof fn lemma_cross_algorithm_agreement(
    data: Seq<Color4>,
    cfg1: KMeansConfig,
    cfg2: KMeansConfig,
    seed: u64,
    assigns1: Seq<usize>,
    cents1: Seq<Color4>,
    assigns2: Seq<usize>,
    cents2: Seq<Color4>,
)
    requires
        cfg1.k == cfg2.k,
        cfg1.tolerance == cfg2.tolerance,
        cfg1.max_iterations == cfg2.max_iterations,
        cfg1.initializer == cfg2.initializer,
        run_matches(data, cfg1, seed, assigns1, cents1),
        run_matches(data, cfg2, seed, assigns2, cents2),
    ensures
        assigns1 == assigns2,
        cents1 == cents2,
{
}

} // verus!
