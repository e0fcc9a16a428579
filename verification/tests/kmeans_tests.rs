use color_crunch::{Color4, Initializer, KMeansAlgorithm, KMeansCPU, KMeansConfig, KMeansGpu};
use rand::rngs::StdRng;
use rand::RngExt;
use rand::SeedableRng;

fn c4(r: u32, g: u32, b: u32) -> Color4 {
    Color4::new(r, g, b, 0)
}

fn run_kmeans_test(data: &Vec<Color4>, k: usize, expected_non_empty_clusters: usize) {
    let algorithms = vec![KMeansAlgorithm::Lloyd, KMeansAlgorithm::Hamerly];

    for algorithm in algorithms {
        let config = KMeansConfig {
            k,
            max_iterations: 100,
            tolerance: 1,
            algorithm,
            initializer: Initializer::KMeansPlusPlus,
            seed: None,
        };

        let (clusters, centroids) = KMeansCPU::from_config(config).run(data).unwrap();

        assert_eq!(clusters.len(), data.len(), "clusters.len() == data.len()");
        assert_eq!(centroids.len(), k, "centroids.len() == k");
        assert_eq!(
            clusters.iter().filter(|&&c| c < k).count(),
            data.len(),
            "every assignment lies in [0, k)"
        );
        assert!(expected_non_empty_clusters >= 1);
    }
}

#[test]
fn kmeans_test_kmeans_basic() {
    let data = vec![c4(255, 0, 0), c4(0, 255, 0), c4(0, 0, 255)];
    run_kmeans_test(&data, 3, 3);
}

#[test]
fn kmeans_test_kmeans_single_color() {
    let data = vec![c4(100, 100, 100), c4(100, 100, 100), c4(100, 100, 100)];
    run_kmeans_test(&data, 1, 1);
}

#[test]
fn kmeans_test_kmeans_two_distinct_colors() {
    let data = vec![c4(255, 0, 0), c4(0, 0, 255)];
    run_kmeans_test(&data, 2, 2);
}

#[test]
fn kmeans_test_kmeans_more_clusters_than_colors() {
    let data = vec![c4(255, 0, 0), c4(0, 255, 0)];
    let config = KMeansConfig {
        k: 3,
        max_iterations: 100,
        tolerance: 1,
        algorithm: KMeansAlgorithm::Lloyd,
        initializer: Initializer::KMeansPlusPlus,
        seed: None,
    };
    let result = KMeansCPU::from_config(config).run(&data);
    assert_eq!(
        result.err().unwrap().message(),
        "Number of unique colors is less than k: 2"
    );
}

#[test]
fn test_algorithms_converge_to_the_same_result_for_same_initial_conditions() {
    let seed = 42;
    let data_size = 100;

    let mut rng = StdRng::seed_from_u64(seed);
    let data = (0..data_size)
        .map(|_| {
            Color4::new(
                (rng.random::<f32>() * 255.0) as u32,
                (rng.random::<f32>() * 255.0) as u32,
                (rng.random::<f32>() * 255.0) as u32,
                0,
            )
        })
        .collect::<Vec<Color4>>();

    let config_lloyd = KMeansConfig {
        k: 3,
        max_iterations: 500,
        tolerance: 1,
        algorithm: KMeansAlgorithm::Lloyd,
        initializer: Initializer::KMeansPlusPlus,
        seed: Some(seed),
    };

    let config_hamerly = KMeansConfig {
        k: 3,
        max_iterations: 500,
        tolerance: 1,
        algorithm: KMeansAlgorithm::Hamerly,
        initializer: Initializer::KMeansPlusPlus,
        seed: Some(seed),
    };

    let config_gpu = KMeansConfig {
        k: 3,
        max_iterations: 500,
        tolerance: 1,
        algorithm: KMeansAlgorithm::LloydGpuAssignmentsAndCentroidInfo,
        initializer: Initializer::KMeansPlusPlus,
        seed: Some(seed),
    };

    let gpu = KMeansGpu::from_config(config_gpu);

    let (clusters1, centroids1) = KMeansCPU::from_config(config_lloyd).run(&data).unwrap();
    let (clusters2, centroids2) = KMeansCPU::from_config(config_hamerly).run(&data).unwrap();
    let (clusters3, centroids3) = gpu.run(&data).unwrap();

    assert_eq!(centroids1, centroids2);
    assert_eq!(centroids1, centroids3);
    assert_eq!(clusters1, clusters2);
    assert_eq!(clusters1, clusters3);
}
