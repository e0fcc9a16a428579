use color_crunch::{
    initialize_centroids, reduce_colorspace, Color3, Color4, Initializer, KMeans, KMeansAlgorithm,
    KMeansCPU, KMeansConfig,
};

fn c4(r: u32, g: u32, b: u32) -> Color4 {
    Color4::new(r, g, b, 0)
}

fn seeded_config(k: usize, algorithm: KMeansAlgorithm, seed: u64) -> KMeansConfig {
    KMeansConfig {
        k,
        max_iterations: 100,
        tolerance: 1,
        algorithm,
        initializer: Initializer::KMeansPlusPlus,
        seed: Some(seed),
    }
}

#[test]
fn scenario_three_pure_colors() {
    let data = vec![c4(255, 0, 0), c4(0, 255, 0), c4(0, 0, 255)];
    let (assignments, centroids) = KMeansCPU::from_config(seeded_config(
        3,
        KMeansAlgorithm::Lloyd,
        7,
    ))
    .run(&data)
    .unwrap();

    assert_eq!(assignments.len(), 3);
    assert_eq!(centroids.len(), 3);
    // Three non-empty clusters: the assignments hit all three indices.
    let mut seen = [false; 3];
    for &a in &assignments {
        seen[a] = true;
    }
    assert!(seen[0] && seen[1] && seen[2]);
    // Each point's centroid is exactly its own pure color, in fixed-point
    // units (channel value times 256).
    for (i, point) in data.iter().enumerate() {
        let c = &centroids[assignments[i]];
        assert_eq!(c.r, point.r * 256);
        assert_eq!(c.g, point.g * 256);
        assert_eq!(c.b, point.b * 256);
    }
}

#[test]
fn scenario_single_repeated_color() {
    let data = vec![c4(100, 100, 100), c4(100, 100, 100), c4(100, 100, 100)];
    let (assignments, centroids) = KMeansCPU::from_config(seeded_config(
        1,
        KMeansAlgorithm::Lloyd,
        11,
    ))
    .run(&data)
    .unwrap();

    assert_eq!(assignments, vec![0, 0, 0]);
    assert_eq!(centroids.len(), 1);
    assert_eq!(centroids[0], Color4::new(100 * 256, 100 * 256, 100 * 256, 0));
}

#[test]
fn scenario_too_few_colors_fails_with_count() {
    let data = vec![c4(255, 0, 0), c4(0, 255, 0)];
    let result = KMeansCPU::from_config(seeded_config(3, KMeansAlgorithm::Lloyd, 1)).run(&data);
    let err = result.err().unwrap();
    assert!(err.message().contains("2"));
    assert_eq!(err.message(), "Number of unique colors is less than k: 2");
}

#[test]
fn scenario_empty_input_is_not_an_error() {
    let data: Vec<Color4> = vec![];
    let (assignments, centroids) = KMeansCPU::from_config(seeded_config(
        3,
        KMeansAlgorithm::Lloyd,
        5,
    ))
    .run(&data)
    .unwrap();
    assert!(assignments.is_empty());
    assert!(centroids.is_empty());
}

#[test]
fn scenario_within_budget_returns_input_unchanged() {
    // A four-channel image that already holds two distinct colors, with
    // a budget of three: the remap returns the buffer byte-identical.
    let data = vec![10, 20, 30, 255, 10, 20, 30, 255, 200, 100, 50, 128];
    let result = reduce_colorspace(&data, 3, 1, 4);
    assert_eq!(result, data);
}

#[test]
fn determinism_identical_runs_agree() {
    let data = vec![
        c4(10, 10, 10),
        c4(30, 20, 10),
        c4(250, 240, 230),
        c4(200, 210, 220),
        c4(0, 128, 255),
    ];
    let engine = KMeansCPU::from_config(seeded_config(2, KMeansAlgorithm::Lloyd, 99));
    let (a1, c1) = engine.run(&data).unwrap();
    let (a2, c2) = engine.run(&data).unwrap();
    assert_eq!(a1, a2);
    assert_eq!(c1, c2);
}

#[test]
fn cross_backend_agreement_on_seeded_run() {
    let data = vec![
        c4(1, 2, 3),
        c4(7, 8, 9),
        c4(100, 120, 140),
        c4(110, 130, 150),
        c4(240, 250, 255),
        c4(230, 220, 210),
    ];
    let lloyd = KMeansCPU::from_config(seeded_config(3, KMeansAlgorithm::Lloyd, 4242));
    let hamerly = KMeansCPU::from_config(seeded_config(3, KMeansAlgorithm::Hamerly, 4242));
    let gpu = KMeans::new_gpu(seeded_config(
        3,
        KMeansAlgorithm::LloydGpuAssignmentsAndCentroidInfo,
        4242,
    ));

    let (a1, c1) = lloyd.run(&data).unwrap();
    let (a2, c2) = hamerly.run(&data).unwrap();
    let (a3, c3) = gpu.run_vec4(&data).unwrap();

    assert_eq!(a1, a2);
    assert_eq!(a1, a3);
    assert_eq!(c1, c2);
    assert_eq!(c1, c3);
}

#[test]
fn remap_is_idempotent_on_reduced_output() {
    // Six pixels of five distinct colors with a budget of two: the first
    // reduction quantizes, and reducing the output again leaves it
    // byte-identical (the fixed point of nearest-palette assignment).
    let data = vec![
        255, 0, 0, 250, 5, 5, 0, 0, 255, 5, 5, 250, 128, 128, 128, 0, 0, 250,
    ];
    let reduced = reduce_colorspace(&data, 2, 1, 3);
    assert_eq!(reduced.len(), data.len());
    assert_ne!(reduced, data);
    let reduced_again = reduce_colorspace(&reduced, 2, 1, 3);
    assert_eq!(reduced_again, reduced);
}

#[test]
fn zero_clusters_is_a_configuration_error() {
    let data = vec![c4(1, 2, 3)];
    let result = KMeansCPU::from_config(seeded_config(0, KMeansAlgorithm::Lloyd, 1)).run(&data);
    assert_eq!(result.err().unwrap().message(), "k must be at least 1");
}

#[test]
fn cpu_engine_rejects_parallel_variants() {
    let data = vec![c4(1, 2, 3), c4(4, 5, 6), c4(7, 8, 9)];
    let result = KMeansCPU::from_config(seeded_config(
        2,
        KMeansAlgorithm::LloydGpuAssignments,
        1,
    ))
    .run(&data);
    assert_eq!(
        result.err().unwrap().message(),
        "Algorithm not supported: LloydGpuAssignments"
    );
}

#[test]
fn gpu_facade_rejects_three_channel_data() {
    let data = vec![Color3::new(1, 2, 3), Color3::new(4, 5, 6)];
    let facade = KMeans::new_gpu(seeded_config(2, KMeansAlgorithm::Lloyd, 1));
    let result = facade.run_vec3(&data);
    assert_eq!(
        result.err().unwrap().message(),
        "GPU not supported for 3 channel data. Convert to 4 channel data first."
    );
}

#[test]
fn run_vec3_matches_run_vec4_on_lifted_data() {
    let data3 = vec![
        Color3::new(255, 0, 0),
        Color3::new(0, 255, 0),
        Color3::new(0, 0, 255),
        Color3::new(254, 1, 1),
    ];
    let data4: Vec<Color4> = data3.iter().map(|c| Color4::new(c.r, c.g, c.b, 0)).collect();
    let facade = KMeans::new(seeded_config(2, KMeansAlgorithm::Lloyd, 77));
    let (a3, c3) = facade.run_vec3(&data3).unwrap();
    let (a4, c4s) = facade.run_vec4(&data4).unwrap();
    assert_eq!(a3, a4);
    let projected: Vec<Color3> = c4s.iter().map(|c| Color3::new(c.r, c.g, c.b)).collect();
    assert_eq!(c3, projected);
}

#[test]
fn initializer_draws_points_from_the_data() {
    let data = vec![
        Color3::new(9, 9, 9),
        Color3::new(200, 100, 50),
        Color3::new(3, 141, 59),
    ];
    let centroids = initialize_centroids(&data, 2);
    assert_eq!(centroids.len(), 2);
    for c in &centroids {
        assert!(data.contains(c));
    }
}

#[test]
fn seeded_clustering_error_counts_are_exact() {
    // One distinct color, five requested: the message carries the exact count.
    let data = vec![c4(42, 42, 42), c4(42, 42, 42)];
    let result = KMeansCPU::from_config(seeded_config(5, KMeansAlgorithm::Hamerly, 8)).run(&data);
    assert_eq!(
        result.err().unwrap().message(),
        "Number of unique colors is less than k: 1"
    );
}

#[test]
fn builder_last_write_wins() {
    let built = color_crunch::ColorCruncherBuilder::new()
        .with_max_colors(7)
        .with_max_colors(4)
        .with_channels(4)
        .with_sample_rate(2)
        .build();
    assert_eq!(built.max_colors, 4);
    assert_eq!(built.channels, 4);
    assert_eq!(built.sample_rate, 2);
}

#[test]
fn quantize_replaces_colors_with_palette_entries() {
    // Four distinct colors with a budget of two: the output must differ
    // from the input but keep its length, and a second pass over the
    // output with the same budget returns it unchanged.
    let quantizer = color_crunch::ColorCruncherBuilder::new()
        .with_max_colors(2)
        .with_channels(3)
        .with_sample_rate(1)
        .with_seed(21)
        .build();
    let data = vec![255, 0, 0, 250, 0, 0, 0, 0, 255, 0, 0, 240];
    let out = quantizer.quantize_image(&data);
    assert_eq!(out.len(), data.len());
    assert_ne!(out, data);
    let out2 = quantizer.quantize_image(&out);
    assert_eq!(out2, out);
}

#[test]
fn create_palette_returns_distinct_colors_when_under_budget() {
    let quantizer = color_crunch::ColorCruncherBuilder::new()
        .with_max_colors(5)
        .with_channels(3)
        .with_sample_rate(1)
        .build();
    let data = vec![1, 2, 3, 1, 2, 3, 9, 9, 9];
    let palette = quantizer.create_palette(&data);
    assert_eq!(palette, vec![Color3::new(1, 2, 3), Color3::new(9, 9, 9)]);
}

#[test]
fn create_palette_returns_k_centroids_when_over_budget() {
    let quantizer = color_crunch::ColorCruncherBuilder::new()
        .with_max_colors(2)
        .with_channels(3)
        .with_sample_rate(1)
        .with_seed(3)
        .build();
    let data = vec![255, 0, 0, 0, 255, 0, 0, 0, 255];
    let palette = quantizer.create_palette(&data);
    assert_eq!(palette.len(), 2);
}

#[test]
fn facade_moves_onto_the_parallel_engine() {
    let cfg = seeded_config(2, KMeansAlgorithm::Lloyd, 6);
    let facade = KMeans::new(cfg.clone());
    let data = vec![c4(0, 0, 0), c4(200, 200, 200), c4(10, 0, 0)];
    let (a_cpu, c_cpu) = facade.run_vec4(&data).unwrap();
    let gpu_facade = facade.gpu();
    let (a_gpu, c_gpu) = gpu_facade.run_vec4(&data).unwrap();
    assert_eq!(a_cpu, a_gpu);
    assert_eq!(c_cpu, c_gpu);
}

#[test]
fn model_engine_set_k_changes_the_cluster_count() {
    let mut engine = color_crunch::KMeansGpu::from_config(seeded_config(
        1,
        KMeansAlgorithm::LloydGpuCentroidInfo,
        2,
    ));
    engine.set_k(2);
    let data = vec![c4(0, 0, 0), c4(255, 255, 255)];
    let (_, centroids) = engine.run(&data).unwrap();
    assert_eq!(centroids.len(), 2);
}

#[test]
fn chained_builders_override_in_order() {
    let engine = KMeansCPU::from_config(KMeansConfig::default())
        .with_k(2)
        .with_max_iterations(50)
        .with_tolerance(3)
        .with_algorithm(KMeansAlgorithm::Hamerly)
        .with_seed(9);
    assert_eq!(engine.0.k, 2);
    assert_eq!(engine.0.max_iterations, 50);
    assert_eq!(engine.0.tolerance, 3);
    assert_eq!(engine.0.algorithm, KMeansAlgorithm::Hamerly);
    assert_eq!(engine.0.seed, Some(9));
}

#[test]
fn seeded_quantization_is_reproducible() {
    let quantizer = color_crunch::ColorCruncherBuilder::new()
        .with_max_colors(2)
        .with_channels(4)
        .with_sample_rate(1)
        .with_seed(1234)
        .build();
    let data = vec![
        255, 0, 0, 255, 0, 255, 0, 255, 0, 0, 255, 255, 99, 99, 99, 0,
    ];
    let out1 = quantizer.quantize_image(&data);
    let out2 = quantizer.quantize_image(&data);
    assert_eq!(out1, out2);
    assert_eq!(out1.len(), data.len());
    // The fourth channel passes through untouched.
    assert_eq!(out1[3], 255);
    assert_eq!(out1[15], 0);
}
