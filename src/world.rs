use vstd::prelude::*;
use crate::chunk::{empty_cells, generated, Chunk};
use crate::mesh::{has_gap, mesh_faces, Face, MeshError};
use crate::table::{lemma_push_contains, ChunkCoord, CoordTable};

verus! {

/// Identity of a drawable object that the renderer created for a chunk.
#[derive(Clone, Copy, Debug, PartialEq, Eq, Structural)]
pub struct RenderHandle {
    pub id: u64,
}

/// A chunk was unloaded while no drawable object was recorded for it.
#[derive(Clone, Copy, Debug, PartialEq, Eq, Structural)]
pub enum StreamError {
    MissingRenderable(ChunkCoord),
}

/// Manhattan distance between two chunk coordinates.
pub open spec fn l1_distance(a: ChunkCoord, b: ChunkCoord) -> int {
    abs(a.x - b.x) + abs(a.y - b.y) + abs(a.z - b.z)
}

pub open spec fn abs(v: int) -> int {
    if v < 0 { -v } else { v }
}

/// `c` lies beyond Manhattan distance `d` of `center`.
pub open spec fn is_far(c: ChunkCoord, center: ChunkCoord, d: int) -> bool {
    l1_distance(c, center) > d
}

/// `c` lies in the cube of half-width `d` centred on `center`.
pub open spec fn in_cube(c: ChunkCoord, center: ChunkCoord, d: int) -> bool {
    &&& center.x - d <= c.x <= center.x + d
    &&& center.y - d <= c.y <= center.y + d
    &&& center.z - d <= c.z <= center.z + d
}

/// Every coordinate of the cube of half-width `d` around `center` fits in `i32`.
pub open spec fn cube_fits(center: ChunkCoord, d: int) -> bool {
    d < 0 || {
        &&& i32::MIN <= center.x - d && center.x + d <= i32::MAX
        &&& i32::MIN <= center.y - d && center.y + d <= i32::MAX
        &&& i32::MIN <= center.z - d && center.z + d <= i32::MAX
    }
}

/// Every chunk grid that exists, by chunk coordinate.
pub struct ChunkMap {
    pub chunks: CoordTable<Chunk>,
}

impl ChunkMap {
    pub open spec fn wf(&self) -> bool {
        self.chunks.wf()
    }

    pub open spec fn view(&self) -> Map<ChunkCoord, Chunk> {
        self.chunks@
    }

    pub fn new() -> (r: ChunkMap)
        ensures
            r.wf(),
            r@ == Map::<ChunkCoord, Chunk>::empty(),
    {
        ChunkMap { chunks: CoordTable::new() }
    }

    pub fn get(&self, c: ChunkCoord) -> (r: Option<&Chunk>)
        requires
            self.wf(),
        ensures
            r is Some <==> self@.contains_key(c),
            r matches Some(ch) ==> *ch == self@[c],
    {
        self.chunks.get(c)
    }
}

/// What a viewer move asks of the renderer.
pub struct ViewerUpdate {
    /// Each unloaded coordinate with the drawable object recorded for it, if any.
    pub unloaded: Vec<(ChunkCoord, Option<RenderHandle>)>,
    /// Coordinates to load, none of them loaded yet.
    pub to_load: Vec<ChunkCoord>,
}

/// Tracks which chunks are loaded around a viewer, and the drawable object
/// recorded for each.
pub struct ChunkLoader {
    pub player_position: ChunkCoord,
    pub loaded_chunks: CoordTable<Option<RenderHandle>>,
}

impl ChunkLoader {
    pub open spec fn wf(&self) -> bool {
        self.loaded_chunks.wf()
    }

    /// Each loaded coordinate, with its drawable object if one is recorded.
    pub open spec fn view(&self) -> Map<ChunkCoord, Option<RenderHandle>> {
        self.loaded_chunks@
    }

    /// Loaded coordinates in the order they were loaded.
    pub open spec fn loaded(&self) -> Seq<ChunkCoord> {
        self.loaded_chunks.keys()
    }

    /// The recorded drawable object of each loaded coordinate that has one.
    pub open spec fn renderables(&self) -> Map<ChunkCoord, RenderHandle> {
        Map::new(|c: ChunkCoord| self@.contains_key(c) && self@[c] is Some, |c: ChunkCoord| self@[c]->Some_0)
    }

    pub fn new(player_position: ChunkCoord) -> (r: ChunkLoader)
        ensures
            r.wf(),
            r.player_position == player_position,
            r@ == Map::<ChunkCoord, Option<RenderHandle>>::empty(),
    {
        ChunkLoader { player_position, loaded_chunks: CoordTable::new() }
    }

    pub fn is_loaded(&self, c: ChunkCoord) -> (r: bool)
        requires
            self.wf(),
        ensures
            r == self@.contains_key(c),
    {
        self.loaded_chunks.contains_key(c)
    }

    /// The drawable object recorded for `c`, if it is loaded and has one.
    pub fn renderable_of(&self, c: ChunkCoord) -> (r: Option<RenderHandle>)
        requires
            self.wf(),
        ensures
            r == (if self@.contains_key(c) { self@[c] } else { None }),
    {
        match self.loaded_chunks.get(c) {
            Some(h) => *h,
            None => None,
        }
    }

    /// Number of loaded chunks.
    pub fn loaded_count(&self) -> (r: usize)
        ensures
            r == self.loaded().len(),
    {
        self.loaded_chunks.len()
    }

    /// The loaded coordinates whose Manhattan distance from `position`
    /// exceeds `view_distance`, in load order.
    pub fn get_chunks_to_unload(&self, position: ChunkCoord, view_distance: i32) -> (r: Vec<ChunkCoord>)
        requires
            self.wf(),
        ensures
            r@.no_duplicates(),
            forall|c: ChunkCoord| #[trigger] r@.contains(c) <==> self@.contains_key(c)
                && l1_distance(c, position) > view_distance,
    {
        let mut r: Vec<ChunkCoord> = Vec::new();
        let n = self.loaded_chunks.len();
        let mut i: usize = 0;
        while i < n
            invariant
                self.wf(),
                n == self.loaded().len(),
                i <= n,
                r@.no_duplicates(),
                forall|c: ChunkCoord| #[trigger] r@.contains(c) <==> self.loaded().take(i as int).contains(c)
                    && l1_distance(c, position) > view_distance,
            decreases n - i,
        {
            let c = self.loaded_chunks.key_at(i);
            let dx: i64 = if c.x as i64 >= position.x as i64 { c.x as i64 - position.x as i64 } else { position.x as i64 - c.x as i64 };
            let dy: i64 = if c.y as i64 >= position.y as i64 { c.y as i64 - position.y as i64 } else { position.y as i64 - c.y as i64 };
            let dz: i64 = if c.z as i64 >= position.z as i64 { c.z as i64 - position.z as i64 } else { position.z as i64 - c.z as i64 };
            let distance: i64 = dx + dy + dz;
            assert(distance == l1_distance(c, position));
            let ghost before = r@;
            assert(self.loaded().take(i + 1) =~= self.loaded().take(i as int).push(c));
            proof {
                lemma_push_contains(self.loaded().take(i as int), c);
            }
            if distance > view_distance as i64 {
                proof {
                    assert(!self.loaded().take(i as int).contains(c)) by {
                        if self.loaded().take(i as int).contains(c) {
                            let j = choose|j: int| 0 <= j < i && self.loaded().take(i as int)[j] == c;
                            assert(self.loaded()[j] == self.loaded()[i as int]);
                        }
                    }
                }
                proof {
                    lemma_push_contains(before, c);
                }
                r.push(c);
            }
            i = i + 1;
        }
        proof {
            assert(self.loaded().take(n as int) =~= self.loaded());
        }
        r
    }

    /// The coordinates of the cube of half-width `view_distance` around
    /// `position` that are not loaded, each once.
    pub fn get_chunks_to_load(&self, position: ChunkCoord, view_distance: i32) -> (r: Vec<ChunkCoord>)
        requires
            self.wf(),
            cube_fits(position, view_distance as int),
        ensures
            r@.no_duplicates(),
            forall|c: ChunkCoord| #[trigger] r@.contains(c) <==> in_cube(c, position, view_distance as int)
                && !self@.contains_key(c),
    {
        let mut r: Vec<ChunkCoord> = Vec::new();
        if view_distance < 0 {
            return r;
        }
        let d = view_distance as i64;
        let mut x: i64 = position.x as i64 - d;
        while x <= position.x as i64 + d
            invariant
                self.wf(),
                0 <= d == view_distance,
                cube_fits(position, d as int),
                position.x - d <= x <= position.x + d + 1,
                r@.no_duplicates(),
                forall|c: ChunkCoord| #[trigger] r@.contains(c) <==> in_cube(c, position, d as int)
                    && !self@.contains_key(c) && c.x < x,
            decreases position.x + d + 1 - x,
        {
            let mut y: i64 = position.y as i64 - d;
            while y <= position.y as i64 + d
                invariant
                    self.wf(),
                    0 <= d == view_distance,
                    cube_fits(position, d as int),
                    position.x - d <= x <= position.x + d,
                    position.y - d <= y <= position.y + d + 1,
                    r@.no_duplicates(),
                    forall|c: ChunkCoord| #[trigger] r@.contains(c) <==> in_cube(c, position, d as int)
                        && !self@.contains_key(c) && (c.x < x || (c.x == x && c.y < y)),
                decreases position.y + d + 1 - y,
            {
                let mut z: i64 = position.z as i64 - d;
                while z <= position.z as i64 + d
                    invariant
                        self.wf(),
                        0 <= d == view_distance,
                        cube_fits(position, d as int),
                        position.x - d <= x <= position.x + d,
                        position.y - d <= y <= position.y + d,
                        position.z - d <= z <= position.z + d + 1,
                        r@.no_duplicates(),
                        forall|c: ChunkCoord| #[trigger] r@.contains(c) <==> in_cube(c, position, d as int)
                            && !self@.contains_key(c)
                            && (c.x < x || (c.x == x && c.y < y) || (c.x == x && c.y == y && c.z < z)),
                    decreases position.z + d + 1 - z,
                {
                    let c = ChunkCoord { x: x as i32, y: y as i32, z: z as i32 };
                    if !self.is_loaded(c) {
                        proof {
                            lemma_push_contains(r@, c);
                        }
                        r.push(c);
                    }
                    z = z + 1;
                }
                y = y + 1;
            }
            x = x + 1;
        }
        r
    }

    /// Drops `chunk_coords` from the loaded chunks and its grid from the
    /// registry. Returns the drawable object to destroy, or reports that none
    /// was recorded; the bookkeeping is cleaned up either way.
    pub fn unload_chunk(&mut self, chunk_coords: ChunkCoord, chunks: &mut ChunkMap) -> (r: Result<RenderHandle, StreamError>)
        requires
            old(self).wf(),
            old(chunks).wf(),
        ensures
            final(self).wf(),
            final(chunks).wf(),
            final(self).player_position == old(self).player_position,
            final(self)@ == old(self)@.remove(chunk_coords),
            forall|q: ChunkCoord| #[trigger] final(self).loaded().contains(q)
                <==> old(self).loaded().contains(q) && q != chunk_coords,
            final(chunks)@ == old(chunks)@.remove(chunk_coords),
            r matches Ok(h) ==> old(self)@.contains_key(chunk_coords) && old(self)@[chunk_coords] == Some(h),
            r is Err ==> r == Err::<RenderHandle, StreamError>(StreamError::MissingRenderable(chunk_coords))
                && !(old(self)@.contains_key(chunk_coords) && old(self)@[chunk_coords] is Some),
    {
        let _ = chunks.chunks.remove(chunk_coords);
        match self.loaded_chunks.remove(chunk_coords) {
            Some(Some(h)) => Ok(h),
            _ => Err(StreamError::MissingRenderable(chunk_coords)),
        }
    }

    /// Loads `chunk_coords` unless it is loaded already: generates its grid
    /// from the surface height of each column, builds its mesh, stores the
    /// grid in the registry and marks the coordinate loaded with no drawable
    /// object yet. Returns the mesh, or `None` for a coordinate that was
    /// loaded already, in which case nothing changes.
    pub fn load_chunk(&mut self, chunk_coords: ChunkCoord, heights: &Vec<u8>, chunks: &mut ChunkMap)
        -> (r: Option<Result<Vec<Face>, MeshError>>)
        requires
            old(self).wf(),
            old(chunks).wf(),
            heights@.len() == 1024,
        ensures
            final(self).wf(),
            final(chunks).wf(),
            final(self).player_position == old(self).player_position,
            r is None <==> old(self)@.contains_key(chunk_coords),
            r is None ==> *final(self) == *old(self) && *final(chunks) == *old(chunks),
            r is Some ==> {
                &&& final(self)@ == old(self)@.insert(chunk_coords, None)
                &&& final(self).loaded() == old(self).loaded().push(chunk_coords)
                &&& final(chunks)@.contains_key(chunk_coords)
                &&& final(chunks)@[chunk_coords].wf()
                &&& final(chunks)@[chunk_coords].cells() == generated(empty_cells(), heights@)
                &&& final(chunks)@.remove(chunk_coords) == old(chunks)@.remove(chunk_coords)
            },
            r matches Some(m) ==> (m is Ok <==> !has_gap(generated(empty_cells(), heights@))),
            r matches Some(Ok(faces)) ==> faces@ == mesh_faces(generated(empty_cells(), heights@)),
    {
        if self.loaded_chunks.contains_key(chunk_coords) {
            return None;
        }
        let mut chunk = Chunk::new();
        chunk.generate(heights);
        let mesh = chunk.build_mesh();
        chunks.chunks.insert(chunk_coords, chunk);
        self.loaded_chunks.insert(chunk_coords, None);
        assert(chunks@.remove(chunk_coords) =~= old(chunks)@.remove(chunk_coords));
        Some(mesh)
    }

    /// Records the drawable object created for a loaded coordinate. Returns
    /// false, changing nothing, when the coordinate is not loaded.
    pub fn record_renderable(&mut self, chunk_coords: ChunkCoord, handle: RenderHandle) -> (r: bool)
        requires
            old(self).wf(),
        ensures
            final(self).wf(),
            final(self).player_position == old(self).player_position,
            r == old(self)@.contains_key(chunk_coords),
            r ==> final(self)@ == old(self)@.insert(chunk_coords, Some(handle)),
            r ==> final(self).loaded() == old(self).loaded(),
            !r ==> *final(self) == *old(self),
    {
        if !self.loaded_chunks.contains_key(chunk_coords) {
            return false;
        }
        self.loaded_chunks.insert(chunk_coords, Some(handle));
        true
    }

    /// Reacts to the viewer entering `new_position`. Nothing happens when it
    /// is the current position. Otherwise every loaded chunk whose Manhattan
    /// distance from the previous position exceeds `view_distance` is
    /// unloaded, the coordinates of the cube of half-width `view_distance`
    /// around the new position that are not loaded are handed back to be
    /// loaded, and the new position is recorded.
    pub fn update_player_position(&mut self, new_position: ChunkCoord, view_distance: i32, chunks: &mut ChunkMap)
        -> (r: ViewerUpdate)
        requires
            old(self).wf(),
            old(chunks).wf(),
            cube_fits(new_position, view_distance as int),
        ensures
            final(self).wf(),
            final(chunks).wf(),
            final(self).player_position == new_position,
            new_position == old(self).player_position ==> {
                &&& *final(self) == *old(self)
                &&& *final(chunks) == *old(chunks)
                &&& r.unloaded@.len() == 0
                &&& r.to_load@.len() == 0
            },
            new_position != old(self).player_position ==> forall|c: ChunkCoord| #[trigger] final(self)@.contains_key(c)
                <==> old(self)@.contains_key(c) && !is_far(c, old(self).player_position, view_distance as int),
            new_position != old(self).player_position ==> forall|c: ChunkCoord| #[trigger] final(self)@.contains_key(c)
                ==> final(self)@[c] == old(self)@[c],
            new_position != old(self).player_position ==> forall|c: ChunkCoord| #[trigger] final(chunks)@.contains_key(c)
                <==> old(chunks)@.contains_key(c)
                && !(old(self)@.contains_key(c) && is_far(c, old(self).player_position, view_distance as int)),
            new_position != old(self).player_position ==> forall|c: ChunkCoord| #[trigger] final(chunks)@.contains_key(c)
                ==> final(chunks)@[c] == old(chunks)@[c],
            new_position != old(self).player_position ==> unloaded_coords(r.unloaded@).no_duplicates(),
            new_position != old(self).player_position ==> forall|c: ChunkCoord| #[trigger] unloaded_coords(r.unloaded@).contains(c)
                <==> old(self)@.contains_key(c) && is_far(c, old(self).player_position, view_distance as int),
            new_position != old(self).player_position ==> forall|j: int| 0 <= j < r.unloaded@.len()
                ==> old(self)@.contains_key(#[trigger] r.unloaded@[j].0) && r.unloaded@[j].1 == old(self)@[r.unloaded@[j].0],
            new_position != old(self).player_position ==> r.to_load@.no_duplicates(),
            new_position != old(self).player_position ==> forall|c: ChunkCoord| #[trigger] r.to_load@.contains(c)
                <==> in_cube(c, new_position, view_distance as int) && !final(self)@.contains_key(c),
    {
        let old_position = self.player_position;
        if new_position == old_position {
            return ViewerUpdate { unloaded: Vec::new(), to_load: Vec::new() };
        }
        let ghost pre = self@;
        let ghost pre_chunks = chunks@;
        let far = self.get_chunks_to_unload(old_position, view_distance);
        let mut unloaded: Vec<(ChunkCoord, Option<RenderHandle>)> = Vec::new();
        let mut i: usize = 0;
        while i < far.len()
            invariant
                self.wf(),
                chunks.wf(),
                self.player_position == old_position,
                i <= far@.len(),
                far@.no_duplicates(),
                forall|c: ChunkCoord| #[trigger] far@.contains(c) <==> pre.contains_key(c)
                    && l1_distance(c, old_position) > view_distance,
                unloaded_coords(unloaded@) == far@.take(i as int),
                forall|j: int| 0 <= j < unloaded@.len() ==> #[trigger] unloaded@[j].1 == pre[unloaded@[j].0],
                forall|c: ChunkCoord| #[trigger] self@.contains_key(c)
                    <==> pre.contains_key(c) && !far@.take(i as int).contains(c),
                forall|c: ChunkCoord| #[trigger] self@.contains_key(c) ==> self@[c] == pre[c],
                forall|c: ChunkCoord| #[trigger] chunks@.contains_key(c)
                    <==> pre_chunks.contains_key(c) && !far@.take(i as int).contains(c),
                forall|c: ChunkCoord| #[trigger] chunks@.contains_key(c) ==> chunks@[c] == pre_chunks[c],
            decreases far@.len() - i,
        {
            let c = far[i];
            proof {
                assert(far@.take(i + 1) =~= far@.take(i as int).push(c));
                lemma_push_contains(far@.take(i as int), c);
                assert(far@.contains(c));
                assert(!far@.take(i as int).contains(c)) by {
                    if far@.take(i as int).contains(c) {
                        let j = choose|j: int| 0 <= j < i && far@.take(i as int)[j] == c;
                        assert(far@[j] == far@[i as int]);
                    }
                }
            }
            assert(self@.contains_key(c));
            let ghost h = self@[c];
            assert(h == pre[c]);
            let ghost prev = unloaded@;
            let outcome = self.unload_chunk(c, chunks);
            let handle: Option<RenderHandle> = match outcome {
                Ok(h) => Some(h),
                Err(_) => None,
            };
            assert(handle == h);
            unloaded.push((c, handle));
            assert(forall|j: int| 0 <= j < prev.len() ==> unloaded@[j] == prev[j]);
            assert(unloaded_coords(unloaded@) =~= far@.take(i + 1));
            i = i + 1;
        }
        proof {
            assert(i == far@.len());
            assert(far@.take(far@.len() as int) =~= far@);
            assert forall|c: ChunkCoord| #[trigger] self@.contains_key(c)
                <==> pre.contains_key(c) && !is_far(c, old_position, view_distance as int) by {
                assert(self@.contains_key(c) <==> pre.contains_key(c) && !far@.take(i as int).contains(c));
                if pre.contains_key(c) && is_far(c, old_position, view_distance as int) {
                    assert(far@.contains(c));
                }
            }
        }
        proof {
            assert forall|j: int| 0 <= j < unloaded@.len() implies pre.contains_key(#[trigger] unloaded@[j].0)
                && unloaded@[j].1 == pre[unloaded@[j].0] by {
                assert(unloaded_coords(unloaded@)[j] == unloaded@[j].0);
                assert(far@.contains(far@[j]));
            }
            assert forall|c: ChunkCoord| #[trigger] unloaded_coords(unloaded@).contains(c)
                <==> pre.contains_key(c) && l1_distance(c, old_position) > view_distance by {}
        }
        let ghost mid = self@;
        let to_load = self.get_chunks_to_load(new_position, view_distance);
        self.player_position = new_position;
        assert(self@ == mid);
        ViewerUpdate { unloaded, to_load }
    }
}

/// Every recorded drawable object belongs to a loaded chunk, and a loaded
/// chunk lacks one only while none has been recorded for it: the loaded
/// coordinates are the keys of the recorded objects plus those still
/// waiting for one.
pub proof fn lemma_renderables_follow_loaded(l: ChunkLoader)
    ensures
        forall|c: ChunkCoord| #[trigger] l.renderables().contains_key(c) ==> l@.contains_key(c),
        forall|c: ChunkCoord| #[trigger] l@.contains_key(c)
            ==> (l.renderables().contains_key(c) <==> l@[c] is Some),
        forall|c: ChunkCoord| #[trigger] l.renderables().contains_key(c) ==> Some(l.renderables()[c]) == l@[c],
{
}

/// The load region is a cube while the unload test is a Manhattan bound: for
/// a positive view distance the corner of the cube is loaded around a centre
/// yet lies beyond the unload distance from it, so the next move unloads it.
pub proof fn lemma_cube_corner_churns(center: ChunkCoord, d: int)
    requires
        d > 0,
    ensures
        ({
            let corner = ChunkCoord { x: (center.x + d) as i32, y: (center.y + d) as i32, z: (center.z + d) as i32 };
            cube_fits(center, d) ==> in_cube(corner, center, d) && is_far(corner, center, d)
        }),
{
}

/// The coordinates of a list of unloaded chunks.
pub open spec fn unloaded_coords(u: Seq<(ChunkCoord, Option<RenderHandle>)>) -> Seq<ChunkCoord> {
    u.map_values(|e: (ChunkCoord, Option<RenderHandle>)| e.0)
}

} // verus!
