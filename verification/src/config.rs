use vstd::prelude::*;

verus! {

/// Which clustering algorithm a run uses. The three accelerator variants
/// differ only in which quantities a dispatch materializes (assignments,
/// per-cluster aggregates, or both); all five produce the same clustering
/// for the same data, configuration and seed.
#[derive(Clone, Copy, Debug, PartialEq, Eq, Structural)]
pub enum KMeansAlgorithm {
    /// Baseline full-scan iterative refinement.
    Lloyd,
    /// Bound-pruning refinement; the same clustering as `Lloyd` with
    /// fewer distance computations.
    Hamerly,
    /// Parallel variant whose dispatches materialize assignments only.
    LloydGpuAssignments,
    /// Parallel variant whose dispatches materialize per-cluster aggregates.
    LloydGpuCentroidInfo,
    /// Parallel variant whose dispatches materialize both.
    LloydGpuAssignmentsAndCentroidInfo,
}

impl KMeansAlgorithm {
    /// The sequential engine carries exactly the first two variants.
    pub open spec fn is_cpu(self) -> bool {
        self == KMeansAlgorithm::Lloyd || self == KMeansAlgorithm::Hamerly
    }

    /// The algorithm's display name.
    pub open spec fn spec_name(self) -> Seq<char> {
        match self {
            KMeansAlgorithm::Lloyd => "Lloyd"@,
            KMeansAlgorithm::Hamerly => "Hamerly"@,
            KMeansAlgorithm::LloydGpuAssignments => "LloydGpuAssignments"@,
            KMeansAlgorithm::LloydGpuCentroidInfo => "LloydGpuCentroidInfo"@,
            KMeansAlgorithm::LloydGpuAssignmentsAndCentroidInfo => {
                "LloydGpuAssignmentsAndCentroidInfo"@
            },
        }
    }

    pub fn name(&self) -> (s: &str)
        ensures
            s@ == self.spec_name(),
    {
        match self {
            KMeansAlgorithm::Lloyd => "Lloyd",
            KMeansAlgorithm::Hamerly => "Hamerly",
            KMeansAlgorithm::LloydGpuAssignments => "LloydGpuAssignments",
            KMeansAlgorithm::LloydGpuCentroidInfo => "LloydGpuCentroidInfo",
            KMeansAlgorithm::LloydGpuAssignmentsAndCentroidInfo => {
                "LloydGpuAssignmentsAndCentroidInfo"
            },
        }
    }

    pub fn is_cpu_algorithm(&self) -> (r: bool)
        ensures
            r == self.is_cpu(),
    {
        match self {
            KMeansAlgorithm::Lloyd => true,
            KMeansAlgorithm::Hamerly => true,
            _ => false,
        }
    }
}

/// How the starting centroids are seeded.
#[derive(Clone, Copy, Debug, PartialEq, Eq, Structural)]
pub enum Initializer {
    /// `k` data points drawn uniformly, without replacement.
    Random,
    /// Distance-squared-weighted probabilistic seeding: the first centroid
    /// uniformly at random, each further one with probability proportional
    /// to its squared distance from the nearest already-chosen centroid.
    KMeansPlusPlus,
}

/// The one checked error kind: a configuration or precondition violation,
/// raised before any iteration starts. It carries a descriptive message;
/// when the input holds fewer distinct colors than the requested cluster
/// count, the message names that count.
#[derive(Debug, Clone)]
pub struct KMeansError {
    pub message: String,
}

impl KMeansError {
    pub fn new(message: String) -> (e: KMeansError)
        ensures
            e.message == message,
    {
        KMeansError { message }
    }

    /// The error's descriptive message.
    pub fn message(&self) -> (m: &str)
        ensures
            m@ == self.message@,
    {
        self.message.as_str()
    }
}

/// What a successful run yields: one cluster index per input point, and
/// the final centroids in fixed-point units.
pub type KMeansResult<T> = Result<(Vec<usize>, Vec<T>), KMeansError>;

/// Configuration of one clustering run; immutable for the run's duration.
///
/// `tolerance` is expressed in `1 / SCALE` raw channel units: convergence
/// holds when every centroid's squared fixed-point displacement is
/// strictly below `tolerance * tolerance`. The default of `1` therefore
/// stops as soon as the centroids reach an exact fixed point.
#[derive(Clone, Debug)]
pub struct KMeansConfig {
    pub k: usize,
    pub max_iterations: usize,
    pub tolerance: u32,
    pub algorithm: KMeansAlgorithm,
    pub initializer: Initializer,
    pub seed: Option<u64>,
}

impl Default for KMeansConfig {
    /// The documented defaults: three clusters, one hundred iterations,
    /// the tightest tolerance, the baseline algorithm, weighted seeding,
    /// machine-entropy seed.
    fn default() -> (c: KMeansConfig)
        ensures
            c.k == 3,
            c.max_iterations == 100,
            c.tolerance == 1,
            c.algorithm == KMeansAlgorithm::Lloyd,
            c.initializer == Initializer::KMeansPlusPlus,
            c.seed is None,
    {
        KMeansConfig {
            k: 3,
            max_iterations: 100,
            tolerance: 1,
            algorithm: KMeansAlgorithm::Lloyd,
            initializer: Initializer::KMeansPlusPlus,
            seed: None,
        }
    }
}

} // verus!
