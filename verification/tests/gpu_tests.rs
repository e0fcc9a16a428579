use color_crunch::{Color4, Initializer, KMeansAlgorithm, KMeansConfig, KMeansGpu};

fn create_test_config() -> KMeansConfig {
    KMeansConfig {
        k: 3,
        max_iterations: 10,
        tolerance: 1,
        algorithm: KMeansAlgorithm::LloydGpuAssignmentsAndCentroidInfo,
        initializer: Initializer::Random,
        seed: Some(42),
    }
}

fn p(v: u32) -> Color4 {
    Color4::new(v, v, v, v)
}

#[test]
fn model_engine_separates_tight_groups() {
    // Three tight groups of three pixels each; weighted seeding spreads
    // the starting centroids, so each group lands in its own cluster.
    let config = KMeansConfig {
        k: 3,
        max_iterations: 10,
        tolerance: 1,
        algorithm: KMeansAlgorithm::LloydGpuAssignmentsAndCentroidInfo,
        initializer: Initializer::KMeansPlusPlus,
        seed: Some(42),
    };
    let pixels: Vec<Color4> = vec![
        p(0),
        p(1),
        p(2),
        p(10),
        p(11),
        p(12),
        p(20),
        p(21),
        p(22),
    ];

    let kmeans = KMeansGpu::from_config(config);
    let (assignments, _centroids) = kmeans.run(&pixels).unwrap();

    assert_eq!(assignments.len(), pixels.len());

    assert_eq!(assignments[0], assignments[1]);
    assert_eq!(assignments[1], assignments[2]);
    assert_eq!(assignments[3], assignments[4]);
    assert_eq!(assignments[4], assignments[5]);
    assert_eq!(assignments[6], assignments[7]);
    assert_eq!(assignments[7], assignments[8]);

    assert_ne!(assignments[0], assignments[3]);
    assert_ne!(assignments[3], assignments[6]);
    assert_ne!(assignments[0], assignments[6]);
}

#[test]
fn test_kmeans_gpu_convergence() {
    let config = KMeansConfig {
        k: 2,
        max_iterations: 100,
        tolerance: 1,
        algorithm: KMeansAlgorithm::LloydGpuAssignmentsAndCentroidInfo,
        initializer: Initializer::Random,
        seed: Some(42),
    };

    let pixels: Vec<Color4> = vec![p(0), p(1), p(2), p(10), p(11), p(12)];

    let kmeans = KMeansGpu::from_config(config);
    let (assignments, _centroids) = kmeans.run(&pixels).unwrap();

    assert_eq!(assignments.len(), pixels.len());

    assert_eq!(assignments[0], assignments[1]);
    assert_eq!(assignments[1], assignments[2]);
    assert_eq!(assignments[3], assignments[4]);
    assert_eq!(assignments[4], assignments[5]);
    assert_ne!(assignments[0], assignments[3]);
}

#[test]
fn test_kmeans_gpu_empty_input() {
    let config = create_test_config();
    let pixels: Vec<Color4> = vec![];

    let kmeans = KMeansGpu::from_config(config);
    let (assignments, centroids) = kmeans.run(&pixels).unwrap();

    assert_eq!(assignments.len(), 0);
    assert_eq!(centroids.len(), 0);
}
