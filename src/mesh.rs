use vstd::prelude::*;
use crate::chunk::{generated, generated_cell, column_height, CHUNK_SIZE, FILL_LAYERS, index_of, pos_of, lemma_pos_of_index, lemma_index_pos, Chunk, LocalPos, Material, Voxel, CHUNK_VOLUME};

verus! {

/// The six axis-aligned face orientations of a voxel.
#[derive(Clone, Copy, Debug, PartialEq, Eq, Structural)]
pub enum FaceDirection {
    /// +Y
    Top,
    /// -Z
    Front,
    /// -X
    Left,
    /// +X
    Right,
    /// +Z
    Back,
    /// -Y
    Bottom,
}

/// Unit offset from a voxel to its neighbor across a face.
pub open spec fn offset(d: FaceDirection) -> (int, int, int) {
    match d {
        FaceDirection::Top => (0, 1, 0),
        FaceDirection::Front => (0, 0, -1),
        FaceDirection::Left => (-1, 0, 0),
        FaceDirection::Right => (1, 0, 0),
        FaceDirection::Back => (0, 0, 1),
        FaceDirection::Bottom => (0, -1, 0),
    }
}

/// One visible voxel face: where it is, which way it faces, and what it shows.
#[derive(Clone, Copy, Debug, PartialEq, Eq, Structural)]
pub struct Face {
    pub pos: LocalPos,
    pub direction: FaceDirection,
    pub material: Material,
}

/// What lies across a face of a voxel.
#[derive(Clone, Copy, Debug, PartialEq, Eq, Structural)]
pub enum Neighbor {
    /// The face lies on the chunk boundary.
    OutOfBounds,
    /// The neighboring position is inside the chunk but holds no cell.
    Missing,
    /// The neighbor is a non-solid cell.
    Open,
    /// The neighbor is a solid cell.
    Solid,
}

/// The meshing step found a solid voxel next to an in-chunk position that
/// holds no cell.
#[derive(Clone, Copy, Debug, PartialEq, Eq, Structural)]
pub enum MeshError {
    MissingNeighbor { pos: LocalPos, direction: FaceDirection },
}

pub open spec fn in_chunk_coords(x: int, y: int, z: int) -> bool {
    0 <= x < 32 && 0 <= y < 32 && 0 <= z < 32
}

/// Classifies the neighbor of `p` in direction `d`.
pub open spec fn neighbor(cells: Seq<Option<Voxel>>, p: LocalPos, d: FaceDirection) -> Neighbor {
    let (dx, dy, dz) = offset(d);
    let (nx, ny, nz) = (p.x + dx, p.y + dy, p.z + dz);
    if !in_chunk_coords(nx, ny, nz) {
        Neighbor::OutOfBounds
    } else {
        match cells[index_of(nx, ny, nz)] {
            None => Neighbor::Missing,
            Some(v) => if v.is_solid { Neighbor::Solid } else { Neighbor::Open },
        }
    }
}

/// A face is drawn when it lies on the chunk boundary or faces a non-solid cell.
pub open spec fn face_visible(cells: Seq<Option<Voxel>>, p: LocalPos, d: FaceDirection) -> bool {
    neighbor(cells, p, d) == Neighbor::OutOfBounds || neighbor(cells, p, d) == Neighbor::Open
}

pub open spec fn is_solid_at(cells: Seq<Option<Voxel>>, i: int) -> bool {
    cells[i] is Some && cells[i]->Some_0.is_solid
}

/// The face of the voxel at index `i` in direction `d`, if it is drawn.
pub open spec fn face_seq(cells: Seq<Option<Voxel>>, i: int, d: FaceDirection) -> Seq<Face> {
    if face_visible(cells, pos_of(i), d) {
        seq![Face { pos: pos_of(i), direction: d, material: cells[i]->Some_0.material }]
    } else {
        seq![]
    }
}

/// The faces drawn for the voxel at index `i`, in the order left, right,
/// bottom, top, front, back.
pub open spec fn cell_faces(cells: Seq<Option<Voxel>>, i: int) -> Seq<Face> {
    if is_solid_at(cells, i) {
        face_seq(cells, i, FaceDirection::Left) + face_seq(cells, i, FaceDirection::Right)
            + face_seq(cells, i, FaceDirection::Bottom) + face_seq(cells, i, FaceDirection::Top)
            + face_seq(cells, i, FaceDirection::Front) + face_seq(cells, i, FaceDirection::Back)
    } else {
        seq![]
    }
}

/// The faces drawn for the voxels at indices below `n`, in index order.
pub open spec fn faces_upto(cells: Seq<Option<Voxel>>, n: int) -> Seq<Face>
    decreases n,
{
    if n <= 0 {
        seq![]
    } else {
        faces_upto(cells, n - 1) + cell_faces(cells, n - 1)
    }
}

/// The whole mesh of a grid.
pub open spec fn mesh_faces(cells: Seq<Option<Voxel>>) -> Seq<Face> {
    faces_upto(cells, 32768)
}

/// A solid voxel at index `i` has an in-chunk neighbor with no cell in direction `d`.
pub open spec fn gap_at(cells: Seq<Option<Voxel>>, i: int, d: FaceDirection) -> bool {
    is_solid_at(cells, i) && neighbor(cells, pos_of(i), d) == Neighbor::Missing
}

/// Some solid voxel of the grid has an in-chunk neighbor with no cell.
pub open spec fn has_gap(cells: Seq<Option<Voxel>>) -> bool {
    exists|i: int, d: FaceDirection| 0 <= i < 32768 && #[trigger] gap_at(cells, i, d)
}

impl Chunk {
    /// Classifies what lies across face `d` of the voxel at `p`.
    pub fn neighbor(&self, p: LocalPos, d: FaceDirection) -> (r: Neighbor)
        requires
            self.wf(),
            p.in_chunk(),
        ensures
            r == neighbor(self.cells(), p, d),
    {
        let (nx, ny, nz): (u8, u8, u8) = match d {
            FaceDirection::Top => {
                if p.y == CHUNK_SIZE - 1 { return Neighbor::OutOfBounds; }
                (p.x, p.y + 1, p.z)
            },
            FaceDirection::Front => {
                if p.z == 0 { return Neighbor::OutOfBounds; }
                (p.x, p.y, p.z - 1)
            },
            FaceDirection::Left => {
                if p.x == 0 { return Neighbor::OutOfBounds; }
                (p.x - 1, p.y, p.z)
            },
            FaceDirection::Right => {
                if p.x == CHUNK_SIZE - 1 { return Neighbor::OutOfBounds; }
                (p.x + 1, p.y, p.z)
            },
            FaceDirection::Back => {
                if p.z == CHUNK_SIZE - 1 { return Neighbor::OutOfBounds; }
                (p.x, p.y, p.z + 1)
            },
            FaceDirection::Bottom => {
                if p.y == 0 { return Neighbor::OutOfBounds; }
                (p.x, p.y - 1, p.z)
            },
        };
        match self.get(LocalPos { x: nx, y: ny, z: nz }) {
            None => Neighbor::Missing,
            Some(v) => if v.is_solid { Neighbor::Solid } else { Neighbor::Open },
        }
    }

    /// Appends face `d` of the voxel at index `i` when it is drawn; returns
    /// false when the neighbor across it is missing.
    fn emit_face(&self, faces: &mut Vec<Face>, i: usize, v: Voxel, d: FaceDirection) -> (r: bool)
        requires
            self.wf(),
            i < 32768,
            self.cells()[i as int] == Some(v),
        ensures
            r == (neighbor(self.cells(), pos_of(i as int), d) != Neighbor::Missing),
            r ==> final(faces)@ == old(faces)@ + face_seq(self.cells(), i as int, d),
    {
        proof {
            lemma_pos_of_index(i as int);
        }
        let p = LocalPos { x: (i / 1024) as u8, y: ((i / 32) % 32) as u8, z: (i % 32) as u8 };
        let n = self.neighbor(p, d);
        match n {
            Neighbor::Missing => false,
            Neighbor::Solid => {
                assert(face_seq(self.cells(), i as int, d) =~= seq![]);
                assert(faces@ + face_seq(self.cells(), i as int, d) =~= faces@);
                true
            },
            _ => {
                faces.push(Face { pos: p, direction: d, material: v.material });
                true
            },
        }
    }

    /// Builds the face-culled surface of the chunk: for every solid voxel in
    /// index order, each face that lies on the chunk boundary or faces a
    /// non-solid cell. Fails when a solid voxel has an in-chunk neighbor
    /// position that holds no cell.
    pub fn build_mesh(&self) -> (r: Result<Vec<Face>, MeshError>)
        requires
            self.wf(),
        ensures
            r is Ok <==> !has_gap(self.cells()),
            r matches Ok(faces) ==> faces@ == mesh_faces(self.cells()),
            r matches Err(MeshError::MissingNeighbor { pos, direction }) ==> exists|i: int|
                0 <= i < 32768 && pos == pos_of(i) && #[trigger] gap_at(self.cells(), i, direction),
    {
        let ghost cells = self.cells();
        let mut faces: Vec<Face> = Vec::new();
        let mut i: usize = 0;
        while i < CHUNK_VOLUME
            invariant
                self.wf(),
                cells == self.cells(),
                i <= CHUNK_VOLUME,
                faces@ == faces_upto(cells, i as int),
                forall|j: int, d: FaceDirection| 0 <= j < i ==> !#[trigger] gap_at(cells, j, d),
            decreases CHUNK_VOLUME - i,
        {
            proof {
                lemma_pos_of_index(i as int);
            }
            match self.cell_at(i) {
                Some(v) if v.is_solid => {
                    let ghost start = faces@;
                    let order: [FaceDirection; 6] = [
                        FaceDirection::Left,
                        FaceDirection::Right,
                        FaceDirection::Bottom,
                        FaceDirection::Top,
                        FaceDirection::Front,
                        FaceDirection::Back,
                    ];
                    let mut k: usize = 0;
                    while k < 6
                        invariant
                            self.wf(),
                            cells == self.cells(),
                            i < 32768,
                            k <= 6,
                            cells[i as int] == Some(v),
                            v.is_solid,
                            order@ == seq![FaceDirection::Left, FaceDirection::Right, FaceDirection::Bottom,
                                FaceDirection::Top, FaceDirection::Front, FaceDirection::Back],
                            faces@ == start + partial_faces(cells, i as int, order@, k as int),
                            forall|m: int| 0 <= m < k ==> !gap_at(cells, i as int, #[trigger] order@[m]),
                        decreases 6 - k,
                    {
                        let d = order[k];
                        if !self.emit_face(&mut faces, i, v, d) {
                            let p = LocalPos { x: (i / 1024) as u8, y: ((i / 32) % 32) as u8, z: (i % 32) as u8 };
                            assert(gap_at(cells, i as int, d));
                            return Err(MeshError::MissingNeighbor { pos: p, direction: d });
                        }
                        assert(start + partial_faces(cells, i as int, order@, k + 1)
                            =~= start + partial_faces(cells, i as int, order@, k as int) + face_seq(cells, i as int, d));
                        k = k + 1;
                    }
                    proof {
                        reveal_with_fuel(partial_faces, 7);
                        assert(order@[0] == FaceDirection::Left && order@[1] == FaceDirection::Right
                            && order@[2] == FaceDirection::Bottom && order@[3] == FaceDirection::Top
                            && order@[4] == FaceDirection::Front && order@[5] == FaceDirection::Back);
                        assert(partial_faces(cells, i as int, order@, 6) =~= cell_faces(cells, i as int));
                        assert forall|j: int, d: FaceDirection| 0 <= j < i + 1 implies !#[trigger] gap_at(cells, j, d) by {
                            if j == i {
                                assert(d == order@[0] || d == order@[1] || d == order@[2] || d == order@[3]
                                    || d == order@[4] || d == order@[5]);
                            }
                        }
                    }
                },
                _ => {
                    assert(cell_faces(cells, i as int) =~= seq![]);
                    assert(faces@ + cell_faces(cells, i as int) =~= faces@);
                },
            }
            i = i + 1;
        }
        Ok(faces)
    }
}

/// The faces of the voxel at index `i` over the first `k` directions of `order`.
pub open spec fn partial_faces(cells: Seq<Option<Voxel>>, i: int, order: Seq<FaceDirection>, k: int) -> Seq<Face>
    decreases k,
{
    if k <= 0 {
        seq![]
    } else {
        partial_faces(cells, i, order, k - 1) + face_seq(cells, i, order[k - 1])
    }
}


/// The face of the voxel at index `i` in direction `d`.
pub open spec fn face_of(cells: Seq<Option<Voxel>>, i: int, d: FaceDirection) -> Face {
    Face { pos: pos_of(i), direction: d, material: cells[i]->Some_0.material }
}

proof fn lemma_concat_contains(a: Seq<Face>, b: Seq<Face>, f: Face)
    ensures
        (a + b).contains(f) <==> a.contains(f) || b.contains(f),
{
    if a.contains(f) {
        let k = choose|k: int| 0 <= k < a.len() && a[k] == f;
        assert((a + b)[k] == f);
    }
    if b.contains(f) {
        let k = choose|k: int| 0 <= k < b.len() && b[k] == f;
        assert((a + b)[a.len() + k] == f);
    }
    if (a + b).contains(f) {
        let k = choose|k: int| 0 <= k < (a + b).len() && (a + b)[k] == f;
        if k < a.len() {
            assert(a[k] == f);
        } else {
            assert(b[k - a.len()] == f);
        }
    }
}

proof fn lemma_face_seq_contains(cells: Seq<Option<Voxel>>, i: int, d: FaceDirection, f: Face)
    ensures
        face_seq(cells, i, d).contains(f) <==> face_visible(cells, pos_of(i), d) && f == face_of(cells, i, d),
{
    if face_visible(cells, pos_of(i), d) && f == face_of(cells, i, d) {
        assert(face_seq(cells, i, d)[0] == f);
    }
}

proof fn lemma_cell_faces_contains(cells: Seq<Option<Voxel>>, i: int, f: Face)
    ensures
        cell_faces(cells, i).contains(f) <==> is_solid_at(cells, i) && face_visible(cells, pos_of(i), f.direction)
            && f == face_of(cells, i, f.direction),
{
    if is_solid_at(cells, i) {
        let l = face_seq(cells, i, FaceDirection::Left);
        let r = face_seq(cells, i, FaceDirection::Right);
        let bo = face_seq(cells, i, FaceDirection::Bottom);
        let t = face_seq(cells, i, FaceDirection::Top);
        let fr = face_seq(cells, i, FaceDirection::Front);
        let ba = face_seq(cells, i, FaceDirection::Back);
        lemma_concat_contains(l, r, f);
        lemma_concat_contains(l + r, bo, f);
        lemma_concat_contains(l + r + bo, t, f);
        lemma_concat_contains(l + r + bo + t, fr, f);
        lemma_concat_contains(l + r + bo + t + fr, ba, f);
        lemma_face_seq_contains(cells, i, FaceDirection::Left, f);
        lemma_face_seq_contains(cells, i, FaceDirection::Right, f);
        lemma_face_seq_contains(cells, i, FaceDirection::Bottom, f);
        lemma_face_seq_contains(cells, i, FaceDirection::Top, f);
        lemma_face_seq_contains(cells, i, FaceDirection::Front, f);
        lemma_face_seq_contains(cells, i, FaceDirection::Back, f);
    }
}

proof fn lemma_faces_upto_contains(cells: Seq<Option<Voxel>>, n: int, f: Face)
    requires
        0 <= n,
    ensures
        faces_upto(cells, n).contains(f) <==> exists|j: int| 0 <= j < n && #[trigger] cell_faces(cells, j).contains(f),
    decreases n,
{
    if n > 0 {
        lemma_faces_upto_contains(cells, n - 1, f);
        lemma_concat_contains(faces_upto(cells, n - 1), cell_faces(cells, n - 1), f);
    }
}

/// A voxel's face in direction `d` is in the mesh exactly when the voxel is
/// solid and the face is visible.
pub proof fn lemma_face_in_mesh(cells: Seq<Option<Voxel>>, i: int, d: FaceDirection)
    requires
        0 <= i < 32768,
    ensures
        mesh_faces(cells).contains(face_of(cells, i, d))
            <==> is_solid_at(cells, i) && face_visible(cells, pos_of(i), d),
{
    let f = face_of(cells, i, d);
    lemma_faces_upto_contains(cells, 32768, f);
    lemma_cell_faces_contains(cells, i, f);
    if mesh_faces(cells).contains(f) {
        let j = choose|j: int| 0 <= j < 32768 && #[trigger] cell_faces(cells, j).contains(f);
        lemma_cell_faces_contains(cells, j, f);
        lemma_pos_of_index(i);
        lemma_pos_of_index(j);
        assert(j == i);
    }
}

/// A solid voxel on the chunk boundary always shows its face toward that
/// boundary, whatever its neighbors are.
pub proof fn lemma_boundary_face_emitted(c: Chunk, p: LocalPos, d: FaceDirection)
    requires
        c.wf(),
        p.in_chunk(),
        c.cell(p) matches Some(v) && v.is_solid,
        neighbor(c.cells(), p, d) == Neighbor::OutOfBounds,
    ensures
        mesh_faces(c.cells()).contains(Face { pos: p, direction: d, material: c.cell(p)->Some_0.material }),
{
    let i = index_of(p.x as int, p.y as int, p.z as int);
    lemma_index_pos(p.x as int, p.y as int, p.z as int);
    lemma_face_in_mesh(c.cells(), i, d);
}

/// For a solid voxel whose neighbor in direction `d` lies inside the chunk,
/// the face in that direction is in the mesh exactly when that neighbor is
/// present and not solid.
pub proof fn lemma_interior_face_visibility(c: Chunk, p: LocalPos, d: FaceDirection)
    requires
        c.wf(),
        p.in_chunk(),
        c.cell(p) matches Some(v) && v.is_solid,
        neighbor(c.cells(), p, d) != Neighbor::OutOfBounds,
    ensures
        mesh_faces(c.cells()).contains(Face { pos: p, direction: d, material: c.cell(p)->Some_0.material })
            <==> neighbor(c.cells(), p, d) == Neighbor::Open,
{
    let i = index_of(p.x as int, p.y as int, p.z as int);
    lemma_index_pos(p.x as int, p.y as int, p.z as int);
    lemma_face_in_mesh(c.cells(), i, d);
}

/// Meshing is a function of the grid: two meshes built from the same chunk
/// hold the same faces in the same order.
pub proof fn lemma_mesh_repeatable(c: Chunk, first: Seq<Face>, second: Seq<Face>)
    requires
        c.wf(),
        first == mesh_faces(c.cells()),
        second == mesh_faces(c.cells()),
    ensures
        first == second,
        forall|f: Face| first.contains(f) <==> second.contains(f),
{
}


/// Generation over an empty chunk leaves no gap for meshing when every
/// column's surface lies at least two layers below the top of the fill: every
/// in-chunk neighbor of a solid cell then holds a cell.
pub proof fn lemma_generated_has_no_gap(cells: Seq<Option<Voxel>>, heights: Seq<u8>)
    requires
        cells.len() == 32768,
        forall|i: int| 0 <= i < 32768 ==> cells[i].is_none(),
        heights.len() == 1024,
        forall|k: int| 0 <= k < 1024 ==> #[trigger] heights[k] + 2 <= FILL_LAYERS,
    ensures
        !has_gap(generated(cells, heights)),
{
    let g = generated(cells, heights);
    assert forall|i: int, d: FaceDirection| 0 <= i < 32768 implies !#[trigger] gap_at(g, i, d) by {
        lemma_pos_of_index(i);
        let p = pos_of(i);
        assert(g[i] == generated_cell(cells, heights, i));
        if is_solid_at(g, i) {
            assert(heights[p.x * 32 + p.z] + 2 <= FILL_LAYERS);
            assert(column_height(heights, p.x as int, p.z as int) == p.y);
            let (dx, dy, dz) = offset(d);
            let (nx, ny, nz) = (p.x + dx, p.y + dy, p.z + dz);
            if in_chunk_coords(nx, ny, nz) {
                lemma_index_pos(nx, ny, nz);
                assert(g[index_of(nx, ny, nz)] == generated_cell(cells, heights, index_of(nx, ny, nz)));
            }
        }
    }
}

} // verus!
