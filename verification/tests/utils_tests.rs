use color_crunch::{
    calculate_max_centroid_movement, calculate_min_centroid_distance, find_closest_centroid,
    Color4,
};

fn c4(r: u32, g: u32, b: u32) -> Color4 {
    Color4::new(r, g, b, 0)
}

#[test]
fn test_find_closest_centroid() {
    let pixel = c4(100, 100, 100);
    let centroids = vec![c4(0, 0, 0), c4(100, 100, 100), c4(200, 200, 200)];

    let closest_index = find_closest_centroid(&pixel, &centroids);
    assert_eq!(closest_index, 1);
}

#[test]
fn test_calculate_max_centroid_movement() {
    let initial_centroids = vec![c4(0, 0, 0), c4(100, 100, 100)];
    let final_centroids = vec![c4(10, 10, 10), c4(90, 90, 90)];

    let max_movement = calculate_max_centroid_movement(&initial_centroids, &final_centroids);
    assert_eq!(max_movement, 300);
}

#[test]
fn test_calculate_min_centroid_distance() {
    let centroids = vec![c4(0, 0, 0), c4(100, 100, 100), c4(200, 200, 200)];

    let min_distance = calculate_min_centroid_distance(&centroids);
    assert_eq!(min_distance, 30000);
}
