use voxel_world::chunk::{Chunk, LocalPos, Material};
use voxel_world::mesh::{Face, FaceDirection, MeshError, Neighbor};

fn chunk_with(heights: &Vec<u8>) -> Chunk {
    let mut c = Chunk::new();
    c.generate(heights);
    c
}

fn face(x: u8, y: u8, z: u8, direction: FaceDirection) -> Face {
    Face { pos: LocalPos { x, y, z }, direction, material: Material::Stone }
}

#[test]
fn flat_surface_face_count() {
    let c = chunk_with(&vec![10; 1024]);
    let faces = c.build_mesh().unwrap();
    // top and bottom of every surface cell, plus the four boundary walls
    assert_eq!(faces.len(), 1024 + 1024 + 4 * 32);
}

#[test]
fn meshing_twice_gives_same_faces() {
    let mut heights = vec![10u8; 1024];
    heights[100] = 14;
    heights[500] = 7;
    let c = chunk_with(&heights);
    let a = c.build_mesh().unwrap();
    let b = c.build_mesh().unwrap();
    assert_eq!(a, b);
    let mut sa = a.clone();
    let mut sb = b.clone();
    sa.sort_by_key(|f| (f.pos.x, f.pos.y, f.pos.z, f.direction as u8));
    sb.sort_by_key(|f| (f.pos.x, f.pos.y, f.pos.z, f.direction as u8));
    assert_eq!(sa, sb);
}

#[test]
fn boundary_faces_always_emitted() {
    let c = chunk_with(&vec![10; 1024]);
    let faces = c.build_mesh().unwrap();
    // (0,10,5) has a solid neighbour at x=1 but sits on the x=0 plane
    assert!(faces.contains(&face(0, 10, 5, FaceDirection::Left)));
    assert!(faces.contains(&face(31, 10, 5, FaceDirection::Right)));
    assert!(faces.contains(&face(5, 10, 0, FaceDirection::Front)));
    assert!(faces.contains(&face(5, 10, 31, FaceDirection::Back)));
    assert!(!faces.contains(&face(5, 10, 5, FaceDirection::Left)));
}

#[test]
fn top_and_bottom_boundary_faces() {
    let mut heights = vec![10u8; 1024];
    heights[0] = 0;
    heights[1] = 31;
    let c = chunk_with(&heights);
    assert_eq!(c.neighbor(LocalPos { x: 0, y: 0, z: 0 }, FaceDirection::Bottom), Neighbor::OutOfBounds);
    assert_eq!(c.neighbor(LocalPos { x: 0, y: 31, z: 1 }, FaceDirection::Top), Neighbor::OutOfBounds);
    // the cell at y = 31 has no generated cell beside it at x = 1
    assert_eq!(
        c.build_mesh(),
        Err(MeshError::MissingNeighbor { pos: LocalPos { x: 0, y: 31, z: 1 }, direction: FaceDirection::Right })
    );
}

#[test]
fn interior_face_visibility() {
    let mut heights = vec![10u8; 1024];
    heights[5 * 32 + 5] = 11;
    let c = chunk_with(&heights);
    let faces = c.build_mesh().unwrap();
    // the raised cell (5,11,5) faces non-solid fill on every side
    for d in [
        FaceDirection::Left,
        FaceDirection::Right,
        FaceDirection::Front,
        FaceDirection::Back,
        FaceDirection::Top,
        FaceDirection::Bottom,
    ] {
        assert!(faces.contains(&face(5, 11, 5, d)));
    }
    // (4,10,5) faces the hole left under the raised cell, and solid (3,10,5)
    assert!(faces.contains(&face(4, 10, 5, FaceDirection::Right)));
    assert!(!faces.contains(&face(4, 10, 5, FaceDirection::Left)));
    assert_eq!(c.neighbor(LocalPos { x: 4, y: 10, z: 5 }, FaceDirection::Right), Neighbor::Open);
    assert_eq!(c.neighbor(LocalPos { x: 4, y: 10, z: 5 }, FaceDirection::Left), Neighbor::Solid);
}

#[test]
fn missing_neighbor_is_reported() {
    let c = chunk_with(&vec![29; 1024]);
    assert_eq!(c.neighbor(LocalPos { x: 0, y: 29, z: 0 }, FaceDirection::Top), Neighbor::Missing);
    match c.build_mesh() {
        Err(MeshError::MissingNeighbor { pos, direction }) => {
            assert_eq!(pos.y, 29);
            assert_eq!(direction, FaceDirection::Top);
        }
        Ok(_) => panic!("expected a missing neighbour"),
    }
}

#[test]
fn empty_chunk_has_no_faces() {
    let c = Chunk::new();
    assert_eq!(c.build_mesh().unwrap().len(), 0);
    let c = chunk_with(&vec![40; 1024]);
    assert_eq!(c.build_mesh().unwrap().len(), 0);
}

#[test]
fn faces_in_cell_order() {
    let c = chunk_with(&vec![10; 1024]);
    let faces = c.build_mesh().unwrap();
    assert_eq!(faces[0], face(0, 10, 0, FaceDirection::Left));
    assert_eq!(faces[1], face(0, 10, 0, FaceDirection::Bottom));
    assert_eq!(faces[2], face(0, 10, 0, FaceDirection::Top));
    assert_eq!(faces[3], face(0, 10, 0, FaceDirection::Front));
}
