use vstd::prelude::*;
use crate::chunk::Material;
use crate::mesh::{offset, Face, FaceDirection};

verus! {

/// Corner `j` (0 to 3) of the unit quad drawn for a face in direction `d`,
/// relative to the voxel's minimum corner; corners run counter-clockwise
/// seen from outside the voxel.
pub open spec fn corner(d: FaceDirection, j: int) -> (int, int, int) {
    match d {
        FaceDirection::Top => if j == 0 { (0, 1, 0) } else if j == 1 { (0, 1, 1) } else if j == 2 { (1, 1, 1) } else { (1, 1, 0) },
        FaceDirection::Bottom => if j == 0 { (0, 0, 0) } else if j == 1 { (1, 0, 0) } else if j == 2 { (1, 0, 1) } else { (0, 0, 1) },
        FaceDirection::Left => if j == 0 { (0, 0, 0) } else if j == 1 { (0, 0, 1) } else if j == 2 { (0, 1, 1) } else { (0, 1, 0) },
        FaceDirection::Right => if j == 0 { (1, 0, 0) } else if j == 1 { (1, 1, 0) } else if j == 2 { (1, 1, 1) } else { (1, 0, 1) },
        FaceDirection::Front => if j == 0 { (0, 0, 0) } else if j == 1 { (0, 1, 0) } else if j == 2 { (1, 1, 0) } else { (1, 0, 0) },
        FaceDirection::Back => if j == 0 { (0, 0, 1) } else if j == 1 { (1, 0, 1) } else if j == 2 { (1, 1, 1) } else { (0, 1, 1) },
    }
}

/// Position of corner `j` of the quad of face `f`, in chunk-local voxel units.
pub open spec fn vertex_position(f: Face, j: int) -> (u16, u16, u16) {
    let (cx, cy, cz) = corner(f.direction, j);
    ((f.pos.x + cx) as u16, (f.pos.y + cy) as u16, (f.pos.z + cz) as u16)
}

pub open spec fn normal_of(d: FaceDirection) -> (i8, i8, i8) {
    let (dx, dy, dz) = offset(d);
    (dx as i8, dy as i8, dz as i8)
}

/// Vertex `k` of a quad's two triangles, as a corner number.
pub open spec fn triangle_corner(k: int) -> int {
    if k == 0 { 0 } else if k == 1 { 1 } else if k == 2 { 2 } else if k == 3 { 0 } else if k == 4 { 2 } else { 3 }
}

/// Vertex and index buffers for a list of faces: four vertices per face,
/// each with its position, the face normal and the texture-atlas tile and
/// tile corner, and six indices per face forming two triangles.
pub struct MeshBuffers {
    pub positions: Vec<(u16, u16, u16)>,
    pub normals: Vec<(i8, i8, i8)>,
    pub atlas: Vec<(Material, u8)>,
    pub indices: Vec<u32>,
}

/// Corner `j` of the quad for a face in direction `d`.
pub fn quad_corner(d: FaceDirection, j: u8) -> (r: (u16, u16, u16))
    requires
        j < 4,
    ensures
        r == ((corner(d, j as int).0) as u16, (corner(d, j as int).1) as u16, (corner(d, j as int).2) as u16),
{
    match d {
        FaceDirection::Top => if j == 0 { (0, 1, 0) } else if j == 1 { (0, 1, 1) } else if j == 2 { (1, 1, 1) } else { (1, 1, 0) },
        FaceDirection::Bottom => if j == 0 { (0, 0, 0) } else if j == 1 { (1, 0, 0) } else if j == 2 { (1, 0, 1) } else { (0, 0, 1) },
        FaceDirection::Left => if j == 0 { (0, 0, 0) } else if j == 1 { (0, 0, 1) } else if j == 2 { (0, 1, 1) } else { (0, 1, 0) },
        FaceDirection::Right => if j == 0 { (1, 0, 0) } else if j == 1 { (1, 1, 0) } else if j == 2 { (1, 1, 1) } else { (1, 0, 1) },
        FaceDirection::Front => if j == 0 { (0, 0, 0) } else if j == 1 { (0, 1, 0) } else if j == 2 { (1, 1, 0) } else { (1, 0, 0) },
        FaceDirection::Back => if j == 0 { (0, 0, 1) } else if j == 1 { (1, 0, 1) } else if j == 2 { (1, 1, 1) } else { (0, 1, 1) },
    }
}

/// Unit normal of a face in direction `d`.
pub fn face_normal(d: FaceDirection) -> (r: (i8, i8, i8))
    ensures
        r == normal_of(d),
{
    match d {
        FaceDirection::Top => (0, 1, 0),
        FaceDirection::Front => (0, 0, -1),
        FaceDirection::Left => (-1, 0, 0),
        FaceDirection::Right => (1, 0, 0),
        FaceDirection::Back => (0, 0, 1),
        FaceDirection::Bottom => (0, -1, 0),
    }
}

/// Emits one quad per face, in the order of `faces`.
pub fn mesh_buffers(faces: &Vec<Face>) -> (r: MeshBuffers)
    requires
        faces@.len() * 6 <= u32::MAX,
    ensures
        r.positions@.len() == 4 * faces@.len(),
        r.normals@.len() == 4 * faces@.len(),
        r.atlas@.len() == 4 * faces@.len(),
        r.indices@.len() == 6 * faces@.len(),
        forall|m: int| 0 <= m < 4 * faces@.len() ==> #[trigger] r.positions@[m]
            == vertex_position(faces@[m / 4], m % 4),
        forall|m: int| 0 <= m < 4 * faces@.len() ==> #[trigger] r.normals@[m]
            == normal_of(faces@[m / 4].direction),
        forall|m: int| 0 <= m < 4 * faces@.len() ==> #[trigger] r.atlas@[m]
            == (faces@[m / 4].material, (m % 4) as u8),
        forall|m: int| 0 <= m < 6 * faces@.len() ==> #[trigger] r.indices@[m]
            == 4 * (m / 6) + triangle_corner(m % 6),
{
    let mut positions: Vec<(u16, u16, u16)> = Vec::new();
    let mut normals: Vec<(i8, i8, i8)> = Vec::new();
    let mut atlas: Vec<(Material, u8)> = Vec::new();
    let mut indices: Vec<u32> = Vec::new();
    let mut i: usize = 0;
    while i < faces.len()
        invariant
            i <= faces@.len(),
            faces@.len() * 6 <= u32::MAX,
            positions@.len() == 4 * i,
            normals@.len() == 4 * i,
            atlas@.len() == 4 * i,
            indices@.len() == 6 * i,
            forall|m: int| 0 <= m < 4 * i ==> #[trigger] positions@[m] == vertex_position(faces@[m / 4], m % 4),
            forall|m: int| 0 <= m < 4 * i ==> #[trigger] normals@[m] == normal_of(faces@[m / 4].direction),
            forall|m: int| 0 <= m < 4 * i ==> #[trigger] atlas@[m] == (faces@[m / 4].material, (m % 4) as u8),
            forall|m: int| 0 <= m < 6 * i ==> #[trigger] indices@[m] == 4 * (m / 6) + triangle_corner(m % 6),
        decreases faces@.len() - i,
    {
        let f = faces[i];
        let normal = face_normal(f.direction);
        let mut j: u8 = 0;
        while j < 4
            invariant
                i < faces@.len(),
                faces@.len() * 6 <= u32::MAX,
                f == faces@[i as int],
                normal == normal_of(f.direction),
                j <= 4,
                positions@.len() == 4 * i + j,
                normals@.len() == 4 * i + j,
                atlas@.len() == 4 * i + j,
                forall|m: int| 0 <= m < 4 * i + j ==> #[trigger] positions@[m] == vertex_position(faces@[m / 4], m % 4),
                forall|m: int| 0 <= m < 4 * i + j ==> #[trigger] normals@[m] == normal_of(faces@[m / 4].direction),
                forall|m: int| 0 <= m < 4 * i + j ==> #[trigger] atlas@[m] == (faces@[m / 4].material, (m % 4) as u8),
            decreases 4 - j,
        {
            let c = quad_corner(f.direction, j);
            assert((4 * i + j) / 4 == i && (4 * i + j) % 4 == j);
            positions.push((f.pos.x as u16 + c.0, f.pos.y as u16 + c.1, f.pos.z as u16 + c.2));
            normals.push(normal);
            atlas.push((f.material, j));
            j = j + 1;
        }
        let base: u32 = (4 * i) as u32;
        let ghost before = indices@;
        indices.push(base);
        indices.push(base + 1);
        indices.push(base + 2);
        indices.push(base);
        indices.push(base + 2);
        indices.push(base + 3);
        assert forall|m: int| 6 * i <= m < 6 * i + 6 implies #[trigger] indices@[m] == 4 * (m / 6) + triangle_corner(m % 6) by {
            assert(m / 6 == i && m % 6 == m - 6 * i);
        }
        assert forall|m: int| 0 <= m < 6 * i implies #[trigger] indices@[m] == 4 * (m / 6) + triangle_corner(m % 6) by {
            assert(indices@[m] == before[m]);
        }
        i = i + 1;
    }
    MeshBuffers { positions, normals, atlas, indices }
}

} // verus!
