use voxel_world::chunk::{Chunk, LocalPos, Material, Voxel};
use voxel_world::table::ChunkCoord;

fn flat(h: u8) -> Vec<u8> {
    vec![h; 1024]
}

fn pos(x: u8, y: u8, z: u8) -> LocalPos {
    LocalPos { x, y, z }
}

#[test]
fn new_chunk_is_empty() {
    let c = Chunk::new();
    assert_eq!(c.get(pos(0, 0, 0)), None);
    assert_eq!(c.get(pos(31, 31, 31)), None);
    assert_eq!(c.get(pos(7, 12, 30)), None);
}

#[test]
fn generation_covers_bounds_of_thirty_two() {
    let mut c = Chunk::new();
    c.generate(&flat(10));
    let mut present = 0usize;
    for x in 0..32u8 {
        for y in 0..32u8 {
            for z in 0..32u8 {
                if c.get(pos(x, y, z)).is_some() {
                    present += 1;
                }
            }
        }
    }
    // fill layers 0..30 are present, the two top layers are not
    assert_eq!(present, 32 * 32 * 30);
}

#[test]
fn generation_is_not_dense_above_fill() {
    let mut c = Chunk::new();
    c.generate(&flat(10));
    assert_eq!(c.get(pos(3, 30, 4)), None);
    assert_eq!(c.get(pos(3, 31, 4)), None);
    assert!(c.get(pos(3, 29, 4)).is_some());
}

#[test]
fn surface_cell_is_solid_stone() {
    let mut c = Chunk::new();
    c.generate(&flat(10));
    assert_eq!(c.get(pos(0, 10, 0)), Some(Voxel { is_solid: true, material: Material::Stone }));
    assert_eq!(c.get(pos(0, 11, 0)), Some(Voxel { is_solid: false, material: Material::Stone }));
    assert_eq!(c.get(pos(0, 9, 0)), Some(Voxel { is_solid: false, material: Material::Stone }));
}

#[test]
fn material_follows_loop_layer_not_surface() {
    // a surface at y = 3 comes from the upper loop layers, so it is stone
    let mut c = Chunk::new();
    c.generate(&flat(3));
    assert_eq!(c.get(pos(5, 3, 5)), Some(Voxel { is_solid: true, material: Material::Stone }));
    assert_eq!(c.get(pos(5, 4, 5)), Some(Voxel { is_solid: false, material: Material::Dirt }));
    assert_eq!(c.get(pos(5, 5, 5)), Some(Voxel { is_solid: false, material: Material::Stone }));
    assert_eq!(c.get(pos(5, 2, 5)), Some(Voxel { is_solid: false, material: Material::Dirt }));
    assert_eq!(c.get(pos(5, 0, 5)), Some(Voxel { is_solid: false, material: Material::Dirt }));
}

#[test]
fn block_names() {
    assert_eq!(Material::Stone.block_name(), "stone");
    assert_eq!(Material::Dirt.block_name(), "dirt");
}

#[test]
fn surface_in_top_layers_is_written() {
    let mut heights = flat(10);
    heights[2 * 32 + 7] = 31;
    let mut c = Chunk::new();
    c.generate(&heights);
    assert_eq!(c.get(pos(2, 31, 7)), Some(Voxel { is_solid: true, material: Material::Stone }));
    assert_eq!(c.get(pos(2, 10, 7)), Some(Voxel { is_solid: false, material: Material::Stone }));
    assert_eq!(c.get(pos(2, 30, 7)), None);
}

#[test]
fn surface_outside_chunk_writes_nothing() {
    let mut c = Chunk::new();
    c.generate(&flat(40));
    for y in 0..30u8 {
        assert_eq!(c.get(pos(1, y, 1)).map(|v| v.is_solid), Some(false));
    }
    assert_eq!(c.get(pos(1, 30, 1)), None);
}

#[test]
fn columns_are_indexed_by_x_then_z() {
    let mut heights = flat(10);
    heights[1 * 32 + 2] = 12;
    let mut c = Chunk::new();
    c.generate(&heights);
    assert_eq!(c.get(pos(1, 12, 2)).map(|v| v.is_solid), Some(true));
    assert_eq!(c.get(pos(2, 12, 1)).map(|v| v.is_solid), Some(false));
}

#[test]
fn local_to_world_scales_chunk_coordinate() {
    let r = Chunk::local_pos_to_world(ChunkCoord { x: 2, y: -1, z: 0 }, pos(3, 4, 31));
    assert_eq!(r, (67, -28, 31));
    let r = Chunk::local_pos_to_world(ChunkCoord { x: i32::MIN, y: i32::MAX, z: 0 }, pos(0, 31, 0));
    assert_eq!(r, (i32::MIN as i64 * 32, i32::MAX as i64 * 32 + 31, 0));
}
