use voxelcore::block::Block;
use voxelcore::block::BlockTextureAtlas;
use voxelcore::coords::BlockPosition;
use voxelcore::coords::CHUNK_SIZE;
use voxelcore::coords::bp;
use voxelcore::graphics::CardinalDirection;
use voxelcore::textures::TextureHandle;

#[test]
fn block_solidity() {
    assert!(!Block::Air.is_solid());
    assert!(Block::Dirt.is_solid());
    assert!(Block::Stone.is_solid());
    assert!(Block::Grass.is_solid());
    assert!(Block::OakWood.is_solid());
    assert!(!Block::OakLeaves.is_solid());
}

#[test]
fn block_bottom_texture() {
    assert_eq!(Block::Grass.bottom_texture(), Some(Block::Dirt));
    assert_eq!(Block::Dirt.bottom_texture(), None);
    assert_eq!(Block::OakWood.bottom_texture(), None);
}

#[test]
fn block_id_from_layers() {
    let handle = TextureHandle::new(10, 3);
    assert_eq!(Block::Grass.id_from(handle, CardinalDirection::Up), 11);
    assert_eq!(Block::Grass.id_from(handle, CardinalDirection::Down), 12);
    assert_eq!(Block::Grass.id_from(handle, CardinalDirection::East), 10);
    assert_eq!(Block::OakWood.id_from(handle, CardinalDirection::Up), 11);
    assert_eq!(Block::OakWood.id_from(handle, CardinalDirection::Down), 11);
    assert_eq!(Block::OakWood.id_from(handle, CardinalDirection::North), 10);
    assert_eq!(Block::Dirt.id_from(handle, CardinalDirection::Up), 10);
}

#[test]
fn atlas_assigns_and_looks_up() {
    let mut atlas = BlockTextureAtlas::new(TextureHandle::null());
    assert_eq!(atlas.get_texture_handle(Block::Stone), TextureHandle::null());
    let grass = TextureHandle::new(20, 3);
    atlas.set_texture_handle(Block::Grass, grass);
    assert_eq!(atlas.get_texture_handle(Block::Grass), grass);
    assert_eq!(atlas.get_base_handle(Block::Grass), grass);
    assert_eq!(atlas.get_texture_handle(Block::Dirt), TextureHandle::null());
    assert_eq!(atlas.texture_index(Block::Grass, CardinalDirection::Up), 21);
    assert_eq!(atlas.texture_index(Block::Grass, CardinalDirection::Down), 22);
    assert_eq!(atlas.texture_index(Block::Grass, CardinalDirection::West), 20);
    let face = atlas.face_texture_index(Block::Grass, CardinalDirection::Down);
    assert_eq!(face, TextureHandle::single(22));
}

#[test]
fn texture_handle_layers() {
    let handle = TextureHandle::new(5, 4);
    assert_eq!(handle.layer(0), 5);
    assert_eq!(handle.layer(3), 8);
    assert_eq!(TextureHandle::single(9), TextureHandle::new(9, 1));
    assert_eq!(TextureHandle::null(), TextureHandle::new(0, 1));
}

#[test]
fn block_position_basics() {
    let p = BlockPosition::new(1, -2, 3);
    assert_eq!(p.to_tuple(), (1, -2, 3));
    assert_eq!(bp(1, -2, 3), p);
}

#[test]
fn chunk_normalize_wraps_into_chunk() {
    assert_eq!(CHUNK_SIZE, 16);
    let p = bp(-1, 35, 16);
    assert_eq!(p.chunk_normalize(), bp(15, 3, 0));
    let q = bp(0, 15, -16);
    assert_eq!(q.chunk_normalize(), bp(0, 15, 0));
}

#[test]
fn chunk_reduce_lands_on_chunk_origin() {
    let p = bp(-1, 35, 16);
    assert_eq!(p.chunk_reduce(), bp(-16, 32, 16));
    let q = bp(7, -20, 0);
    assert_eq!(q.chunk_reduce(), bp(0, -32, 0));
}

#[test]
fn offset_moves_one_block() {
    let p = bp(4, 5, 6);
    assert_eq!(p.offset(CardinalDirection::East), bp(5, 5, 6));
    assert_eq!(p.offset(CardinalDirection::Down), bp(4, 4, 6));
    assert_eq!(p.offset(CardinalDirection::North), bp(4, 5, 5));
    assert_eq!(CardinalDirection::South.offset_pos(p), bp(4, 5, 7));
}

#[test]
fn normals_are_unit_axes() {
    assert_eq!(CardinalDirection::East.normal_i64(), (1, 0, 0));
    assert_eq!(CardinalDirection::West.normal_i64(), (-1, 0, 0));
    assert_eq!(CardinalDirection::Up.normal_i64(), (0, 1, 0));
    assert_eq!(CardinalDirection::Down.normal_i64(), (0, -1, 0));
    assert_eq!(CardinalDirection::South.normal_i64(), (0, 0, 1));
    assert_eq!(CardinalDirection::North.normal_i64(), (0, 0, -1));
}

#[test]
fn iter_lists_all_six_directions() {
    let dirs = CardinalDirection::iter();
    assert_eq!(dirs.len(), 6);
    for d in [
        CardinalDirection::North,
        CardinalDirection::South,
        CardinalDirection::East,
        CardinalDirection::West,
        CardinalDirection::Up,
        CardinalDirection::Down,
    ] {
        assert!(dirs.contains(&d));
    }
}

#[test]
fn all_inspects_every_component() {
    let p = bp(1, 2, 3);
    assert!(p.all(|c| c > 0));
    assert!(!p.all(|c| c > 1));
    let q = bp(-1, 2, 3);
    assert!(!q.all(|c| c > 0));
}
