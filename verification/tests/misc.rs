use raytracer::scenes::Scene;
use raytracer::texture::texel_index;

#[test]
fn texel_index_is_three_samples_per_pixel_row_by_row() {
    assert_eq!(texel_index(0, 0, 4, 3), 0);
    assert_eq!(texel_index(1, 0, 4, 3), 3);
    assert_eq!(texel_index(0, 1, 4, 3), 12);
    assert_eq!(texel_index(3, 2, 4, 3), 33);
    assert_eq!(texel_index(2, 1, 4, 3), 3 * 2 + 3 * 4 * 1);
}

#[test]
fn texel_index_brings_coordinates_back_into_the_image() {
    assert_eq!(texel_index(4, 0, 4, 3), 9);
    assert_eq!(texel_index(0, 3, 4, 3), 24);
    assert_eq!(texel_index(100, 100, 4, 3), 33);
    assert_eq!(texel_index(usize::MAX, usize::MAX, 4, 3), 33);
    assert_eq!(texel_index(7, 7, 1, 1), 0);
}

#[test]
fn texel_index_leaves_room_for_green_and_blue() {
    for width in 1..6 {
        for height in 1..6 {
            for i in 0..8 {
                for j in 0..8 {
                    assert!(texel_index(i, j, width, height) + 2 < 3 * width * height);
                }
            }
        }
    }
}

#[test]
fn scenes_are_told_apart() {
    let all = [
        Scene::Test,
        Scene::ManySpheres,
        Scene::TwoPerlinSpheres,
        Scene::Earth,
        Scene::LightRectangle,
        Scene::CornellBox,
        Scene::CornellSmokes,
        Scene::FinalScene,
        Scene::CustomScene,
        Scene::SpaceDonut,
        Scene::Imagine,
        Scene::MengerSponge,
        Scene::MandelBulb,
        Scene::MandelBox,
        Scene::Knot,
        Scene::CornellMandelBox,
    ];
    for i in 0..all.len() {
        for j in 0..all.len() {
            assert_eq!(all[i] == all[j], i == j);
        }
    }
}
