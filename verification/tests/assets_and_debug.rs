use voxelcore::assets::AssetStore;
use voxelcore::debug::DebugStatistic;
use voxelcore::debug::WorldDebugState;
use voxelcore::debug::decimal_string;
use voxelcore::image_data::Image;
use voxelcore::image_data::ImageError;
use voxelcore::resource::Resource;

/// A 1x1 RGBA PNG holding a single opaque red pixel.
const RED_PIXEL_PNG: [u8; 70] = [
    137, 80, 78, 71, 13, 10, 26, 10, 0, 0, 0, 13, 73, 72, 68, 82, 0, 0, 0, 1, 0, 0, 0, 1, 8, 6,
    0, 0, 0, 31, 21, 196, 137, 0, 0, 0, 13, 73, 68, 65, 84, 120, 156, 99, 248, 207, 192, 240, 31,
    0, 5, 0, 1, 255, 137, 153, 61, 29, 0, 0, 0, 0, 73, 69, 78, 68, 174, 66, 96, 130,
];

#[test]
fn decode_red_pixel() {
    let img = Image::from_mem(&RED_PIXEL_PNG).unwrap();
    assert_eq!(img.dimensions(), (1, 1));
    assert_eq!(img.pixel_bytes().as_slice(), &[255, 0, 0, 255]);
}

#[test]
fn decode_garbage_fails() {
    let result = Image::from_mem(&[1, 2, 3, 4]);
    assert_eq!(result, Err(ImageError::Decode));
}

#[test]
fn image_clone_keeps_pixels() {
    let img = Image::from_mem(&RED_PIXEL_PNG).unwrap();
    let copy = img.clone();
    assert_eq!(copy.dimensions(), img.dimensions());
    assert_eq!(copy.pixel_bytes(), img.pixel_bytes());
}

#[test]
fn asset_store_add_and_get() {
    let mut store = AssetStore::new();
    let name = "red".to_string();
    let img = store.add_image(name.clone(), &RED_PIXEL_PNG).unwrap();
    assert_eq!(img.dimensions(), (1, 1));
    let looked_up = store.get_image(&name).unwrap();
    assert_eq!(looked_up.dimensions(), (1, 1));
    assert_eq!(looked_up.pixel_bytes().as_slice(), &[255, 0, 0, 255]);
    assert!(store.get_image(&"missing".to_string()).is_none());
}

#[test]
fn asset_store_rejects_garbage() {
    let mut store = AssetStore::new();
    let result = store.add_image("broken".to_string(), &[0, 1, 2]);
    assert_eq!(result, Err(ImageError::Decode));
    assert!(store.get_image(&"broken".to_string()).is_none());
}

#[test]
fn decimal_rendering() {
    assert_eq!(decimal_string(0).as_str(), "0");
    assert_eq!(decimal_string(7).as_str(), "7");
    assert_eq!(decimal_string(42).as_str(), "42");
    assert_eq!(decimal_string(1200300).as_str(), "1200300");
    assert_eq!(
        decimal_string(u64::MAX).as_str(),
        "18446744073709551615"
    );
}

#[test]
fn debug_statistic_updates() {
    let mut stat = DebugStatistic::new("FPS".to_string(), "0".to_string());
    assert_eq!(stat.label().as_str(), "FPS");
    assert_eq!(stat.value().as_str(), "0");
    stat.update_value("60".to_string());
    assert_eq!(stat.label().as_str(), "FPS");
    assert_eq!(stat.value().as_str(), "60");
}

#[test]
fn world_debug_state_mirrors_face_count() {
    let stat = DebugStatistic::new("Face Count".to_string(), "0".to_string());
    let mut world_debug = WorldDebugState::new(stat);
    world_debug.update_face_count(123);
    assert_eq!(world_debug.statistic().value().as_str(), "123");
    assert_eq!(world_debug.statistic().label().as_str(), "Face Count");
    world_debug.update_face_count(0);
    assert_eq!(world_debug.statistic().value().as_str(), "0");
}

#[test]
fn resource_cell_lends_and_restores() {
    let mut cell: Resource<Vec<u32>> = Resource::new(vec![1, 2]);
    assert!(cell.is_available());
    assert_eq!(cell.get().as_slice(), &[1, 2]);
    let mut taken = cell.get_mut();
    assert!(!cell.is_available());
    taken.push(3);
    cell.release(taken);
    assert!(cell.is_available());
    assert_eq!(cell.get().as_slice(), &[1, 2, 3]);
}
