use vstd::prelude::*;
use crate::table::ChunkCoord;

verus! {

/// Edge length of a chunk, in voxels.
pub const CHUNK_SIZE: u8 = 32;

/// Number of voxels in a chunk (`CHUNK_SIZE` cubed).
pub const CHUNK_VOLUME: usize = 32768;

/// Generation layers below this height are written as plain fill cells.
pub const FILL_LAYERS: u8 = 30;

/// What a voxel is made of; selects its texture region.
#[derive(Clone, Copy, Debug, PartialEq, Eq, Structural)]
pub enum Material {
    Stone,
    Dirt,
}

impl Material {
    /// Display name of the block made of this material.
    pub fn block_name(&self) -> (r: &'static str)
        ensures
            *self == Material::Stone ==> r@ == "stone"@,
            *self == Material::Dirt ==> r@ == "dirt"@,
    {
        match self {
            Material::Stone => "stone",
            Material::Dirt => "dirt",
        }
    }
}

/// One cell of a chunk.
#[derive(Clone, Copy, Debug, PartialEq, Eq, Structural)]
pub struct Voxel {
    pub is_solid: bool,
    pub material: Material,
}

/// A position inside a chunk; each axis lies in `[0, CHUNK_SIZE)` for a valid one.
#[derive(Clone, Copy, Debug, PartialEq, Eq, Structural)]
pub struct LocalPos {
    pub x: u8,
    pub y: u8,
    pub z: u8,
}

impl LocalPos {
    pub open spec fn in_chunk(self) -> bool {
        self.x < 32 && self.y < 32 && self.z < 32
    }
}

/// Flattened index of a local position.
pub open spec fn index_of(x: int, y: int, z: int) -> int {
    x * 1024 + y * 32 + z
}

/// Local position stored at a flattened index.
pub open spec fn pos_of(i: int) -> LocalPos {
    LocalPos { x: (i / 1024) as u8, y: ((i / 32) % 32) as u8, z: (i % 32) as u8 }
}

pub proof fn lemma_pos_of_index(i: int)
    requires
        0 <= i < 32768,
    ensures
        pos_of(i).in_chunk(),
        index_of(pos_of(i).x as int, pos_of(i).y as int, pos_of(i).z as int) == i,
{
    assert(0 <= i / 1024 < 32);
    assert(i == (i / 1024) * 1024 + ((i / 32) % 32) * 32 + i % 32) by (nonlinear_arith)
        requires 0 <= i < 32768;
}

pub proof fn lemma_index_pos(x: int, y: int, z: int)
    requires
        0 <= x < 32,
        0 <= y < 32,
        0 <= z < 32,
    ensures
        0 <= index_of(x, y, z) < 32768,
        pos_of(index_of(x, y, z)) == (LocalPos { x: x as u8, y: y as u8, z: z as u8 }),
{
    let i = index_of(x, y, z);
    assert(i / 1024 == x && (i / 32) % 32 == y && i % 32 == z) by (nonlinear_arith)
        requires 0 <= x < 32, 0 <= y < 32, 0 <= z < 32, i == x * 1024 + y * 32 + z;
}


/// Material a generation pass assigns from the layer it is iterating over.
pub open spec fn layer_material(loop_y: int) -> Material {
    if loop_y > 4 { Material::Stone } else { Material::Dirt }
}

/// Surface height of the column `(x, z)` in a table of `CHUNK_SIZE * CHUNK_SIZE` heights.
pub open spec fn column_height(heights: Seq<u8>, x: int, z: int) -> int {
    heights[x * 32 + z] as int
}

/// The cell at flattened index `i` once generation has run over `cells`.
///
/// Fill layers `y < FILL_LAYERS` are written as non-solid cells whose material
/// follows the layer. Each column then gets one solid cell at its surface height;
/// those writes come from the upper loop layers, so their material is stone.
/// A surface height outside the chunk writes nothing.
pub open spec fn generated_cell(cells: Seq<Option<Voxel>>, heights: Seq<u8>, i: int) -> Option<Voxel> {
    let p = pos_of(i);
    if column_height(heights, p.x as int, p.z as int) == p.y as int {
        Some(Voxel { is_solid: true, material: layer_material(FILL_LAYERS as int) })
    } else if p.y < FILL_LAYERS {
        Some(Voxel { is_solid: false, material: layer_material(p.y as int) })
    } else {
        cells[i]
    }
}

/// The cells of a chunk that nothing has been written to.
pub open spec fn empty_cells() -> Seq<Option<Voxel>> {
    Seq::new(32768, |i: int| None)
}

/// The whole grid once generation has run over `cells`.
pub open spec fn generated(cells: Seq<Option<Voxel>>, heights: Seq<u8>) -> Seq<Option<Voxel>> {
    Seq::new(32768, |i: int| generated_cell(cells, heights, i))
}

/// A chunk's voxels, one optional cell per local position, stored densely by
/// flattened index. An absent cell is one that generation never wrote.
#[derive(Clone)]
pub struct Chunk {
    voxels_in_chunk: Vec<Option<Voxel>>,
}

impl Chunk {
    pub closed spec fn cells(&self) -> Seq<Option<Voxel>> {
        self.voxels_in_chunk@
    }

    pub open spec fn wf(&self) -> bool {
        self.cells().len() == 32768
    }

    /// The cell at a local position.
    pub open spec fn cell(&self, p: LocalPos) -> Option<Voxel> {
        self.cells()[index_of(p.x as int, p.y as int, p.z as int)]
    }

    /// An empty chunk: every position is absent.
    pub fn new() -> (r: Chunk)
        ensures
            r.wf(),
            r.cells() == empty_cells(),
            forall|i: int| 0 <= i < 32768 ==> r.cells()[i].is_none(),
    {
        let mut v: Vec<Option<Voxel>> = Vec::with_capacity(CHUNK_VOLUME);
        let mut i: usize = 0;
        while i < CHUNK_VOLUME
            invariant
                i <= CHUNK_VOLUME,
                v@.len() == i,
                forall|j: int| 0 <= j < i ==> v@[j].is_none(),
            decreases CHUNK_VOLUME - i,
        {
            v.push(None);
            i = i + 1;
        }
        assert(v@ =~= empty_cells());
        Chunk { voxels_in_chunk: v }
    }

    /// The cell at a local position inside the chunk.
    pub fn get(&self, p: LocalPos) -> (r: Option<Voxel>)
        requires
            self.wf(),
            p.in_chunk(),
        ensures
            r == self.cell(p),
    {
        let i = (p.x as usize) * 1024 + (p.y as usize) * 32 + (p.z as usize);
        self.voxels_in_chunk[i]
    }

    /// World-space voxel coordinate of a local position in the chunk at
    /// chunk coordinate `offset`.
    pub fn local_pos_to_world(offset: ChunkCoord, local_pos: LocalPos) -> (r: (i64, i64, i64))
        ensures
            r.0 == offset.x * 32 + local_pos.x,
            r.1 == offset.y * 32 + local_pos.y,
            r.2 == offset.z * 32 + local_pos.z,
    {
        (
            offset.x as i64 * 32 + local_pos.x as i64,
            offset.y as i64 * 32 + local_pos.y as i64,
            offset.z as i64 * 32 + local_pos.z as i64,
        )
    }

    /// The cell at a flattened index.
    pub fn cell_at(&self, i: usize) -> (r: Option<Voxel>)
        requires
            self.wf(),
            i < 32768,
        ensures
            r == self.cells()[i as int],
    {
        self.voxels_in_chunk[i]
    }

    /// Populates the chunk from the surface height of each column, indexed
    /// `x * CHUNK_SIZE + z`.
    pub fn generate(&mut self, heights: &Vec<u8>)
        requires
            old(self).wf(),
            heights@.len() == 1024,
        ensures
            final(self).cells() == generated(old(self).cells(), heights@),
    {
        let ghost before = self.cells();
        let mut i: usize = 0;
        while i < CHUNK_VOLUME
            invariant
                i <= CHUNK_VOLUME,
                heights@.len() == 1024,
                self.cells().len() == 32768,
                forall|j: int| 0 <= j < i ==> #[trigger] self.cells()[j]
                    == generated_cell(before, heights@, j),
                forall|j: int| i <= j < 32768 ==> #[trigger] self.cells()[j] == before[j],
            decreases CHUNK_VOLUME - i,
        {
            let x: usize = i / 1024;
            let y: usize = (i / 32) % 32;
            let z: usize = i % 32;
            proof {
                lemma_pos_of_index(i as int);
            }
            let layer = y as u8;
            let surface = heights[x * 32 + z];
            let cell: Option<Voxel> = if surface == layer {
                Some(Voxel { is_solid: true, material: Material::Stone })
            } else if layer < FILL_LAYERS {
                let material = if layer > 4 { Material::Stone } else { Material::Dirt };
                Some(Voxel { is_solid: false, material })
            } else {
                self.voxels_in_chunk[i]
            };
            self.voxels_in_chunk.set(i, cell);
            i = i + 1;
        }
        assert(self.cells() =~= generated(before, heights@));
    }
}

/// Generation over an empty chunk: every position below the fill layers
/// holds a cell, the surface cell of each column is the only solid one, and
/// a position in the upper layers holds a cell only where it is its column's
/// surface.
pub proof fn lemma_generated_layout(c: Chunk, heights: Seq<u8>, p: LocalPos)
    requires
        c.wf(),
        forall|i: int| 0 <= i < 32768 ==> c.cells()[i].is_none(),
        heights.len() == 1024,
        p.in_chunk(),
    ensures
        ({
            let cell = generated(c.cells(), heights)[index_of(p.x as int, p.y as int, p.z as int)];
            &&& cell is Some <==> (p.y < FILL_LAYERS || column_height(heights, p.x as int, p.z as int) == p.y)
            &&& (cell matches Some(v) && v.is_solid) <==> column_height(heights, p.x as int, p.z as int) == p.y
            &&& (cell matches Some(v) ==> (v.is_solid || v.material == layer_material(p.y as int)))
            &&& (cell matches Some(v) ==> (!v.is_solid || v.material == Material::Stone))
        }),
{
    lemma_index_pos(p.x as int, p.y as int, p.z as int);
}

} // verus!
