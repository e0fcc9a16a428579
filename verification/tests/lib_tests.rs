use color_crunch::{kmeans_3chan, reduce_colorspace, Color3, ColorCruncherBuilder};

fn c3(r: u32, g: u32, b: u32) -> Color3 {
    Color3::new(r, g, b)
}

#[test]
fn lib_test_kmeans_basic() {
    let data = vec![c3(255, 0, 0), c3(0, 255, 0), c3(0, 0, 255)];
    let k = 3;
    let (clusters, centroids) = kmeans_3chan(&data, k);

    assert_eq!(clusters.len(), k);
    assert_eq!(centroids.len(), k);
    assert_eq!(clusters.iter().map(|c| c.len()).sum::<usize>(), 3);
}

#[test]
fn lib_test_kmeans_single_color() {
    let data = vec![c3(100, 100, 100), c3(100, 100, 100), c3(100, 100, 100)];
    let k = 2;
    let (clusters, centroids) = kmeans_3chan(&data, k);

    assert_eq!(clusters.len(), k);
    assert_eq!(centroids.len(), k);
    assert_eq!(clusters.iter().filter(|c| !c.is_empty()).count(), 1);
}

#[test]
fn lib_test_kmeans_two_distinct_colors() {
    let data = vec![c3(255, 0, 0), c3(0, 0, 255)];
    let k = 2;
    let (clusters, centroids) = kmeans_3chan(&data, k);

    assert_eq!(clusters.len(), k);
    assert_eq!(centroids.len(), k);
}

#[test]
fn lib_test_kmeans_more_clusters_than_colors() {
    let data = vec![c3(255, 0, 0), c3(0, 255, 0)];
    let k = 3;
    let (clusters, centroids) = kmeans_3chan(&data, k);

    assert_eq!(clusters.len(), k);
    assert_eq!(centroids.len(), k);
    assert_eq!(clusters.iter().filter(|c| !c.is_empty()).count(), 2);
}

#[test]
fn test_reduce_colorspace() {
    let data = vec![255, 0, 0, 255, 0, 0, 255, 255, 0, 0, 255, 255, 0, 0, 255, 255];
    let max_colors = 2;
    let sample_rate = 1;
    let channels = 4;

    let quantizer = ColorCruncherBuilder::default()
        .with_max_colors(max_colors)
        .with_sample_rate(sample_rate)
        .with_channels(channels)
        .build();

    let result = quantizer.quantize_image(&data);
    assert_eq!(result.len(), data.len());
}

#[test]
fn test_reduce_colorspace_flat_interface() {
    let data = vec![255, 0, 0, 255, 0, 0, 255, 255, 0, 0, 255, 255, 0, 0, 255, 255];
    let result = reduce_colorspace(&data, 2, 1, 4);
    assert_eq!(result.len(), data.len());
}
