//! Voxel data: blocks, chunks, and the dynamic terrain store that generates
//! and caches chunks by location.

use vstd::prelude::*;

use crate::utils::{loc_in_range, ChunkLoc, IntVec3, CHUNKSIZE, WORLDHEIGHT};

verus! {

/// Basic voxel unit: a material identifier, where 0 means empty air.
#[derive(Copy, Clone, Debug, PartialEq, Eq, Structural)]
pub struct Block {
    pub block_id: usize,
}

/// The block a terrain column of height `h` holds at elevation `y`: solid
/// below the column height, air at and above it.
pub open spec fn column_block_id(h: int, y: int) -> int {
    if y < h {
        1
    } else {
        0
    }
}

/// A 3d container for blocks: `side × height × side` cells, indexed
/// `blocks[x][y][z]`, tagged with its location.
pub struct Chunk {
    pub chunk_loc: ChunkLoc,
    pub side: usize,
    pub height: usize,
    pub blocks: Vec<Vec<Vec<Block>>>,
}

impl Chunk {
    /// The block grid has exactly the dimensions the `side` and `height`
    /// fields claim.
    pub open spec fn wf(self) -> bool {
        &&& self.blocks@.len() == self.side
        &&& forall|x: int|
            0 <= x < self.side ==> (#[trigger] self.blocks@[x])@.len() == self.height
        &&& forall|x: int, y: int|
            0 <= x < self.side && 0 <= y < self.height ==> (#[trigger] self.blocks@[x]@[y])@.len()
                == self.side
    }

    /// Material identifier of the cell at (x, y, z).
    pub open spec fn block_id_at(self, x: int, y: int, z: int) -> int {
        self.blocks@[x]@[y]@[z].block_id as int
    }

    /// Whether the cell at (x, y, z) is solid (not air).
    pub open spec fn solid_at(self, x: int, y: int, z: int) -> bool {
        self.block_id_at(x, y, z) != 0
    }

    /// Whether (x, y, z) lies inside this chunk's grid.
    pub open spec fn in_bounds(self, x: int, y: int, z: int) -> bool {
        0 <= x < self.side && 0 <= y < self.height && 0 <= z < self.side
    }

    /// Whether two chunks have equal dimensions.
    pub open spec fn same_dims(self, other: Chunk) -> bool {
        self.side == other.side && self.height == other.height
    }

    /// Whether two chunks carry the same location, dimensions and
    /// cell-for-cell block content.
    pub open spec fn same_content(self, other: Chunk) -> bool {
        &&& self.chunk_loc == other.chunk_loc
        &&& self.same_dims(other)
        &&& forall|x: int, y: int, z: int|
            self.in_bounds(x, y, z) ==> #[trigger] self.block_id_at(x, y, z) == other.block_id_at(
                x,
                y,
                z,
            )
    }

    /// Whether this chunk is exactly what generation from the given column
    /// heights produces at the given location: every cell below its column
    /// height solid, every cell at or above it air.
    pub open spec fn generated_from(
        self,
        loc: ChunkLoc,
        side: int,
        height: int,
        heights: Seq<Seq<usize>>,
    ) -> bool {
        &&& self.wf()
        &&& self.chunk_loc == loc
        &&& self.side == side
        &&& self.height == height
        &&& forall|x: int, y: int, z: int|
            self.in_bounds(x, y, z) ==> #[trigger] self.block_id_at(x, y, z) == column_block_id(
                heights[x][z] as int,
                y,
            )
    }

    /// Creates a chunk of the given dimensions at the origin, filled with
    /// solid default blocks.
    pub fn with_dims(side: usize, height: usize) -> (r: Self)
        ensures
            r.wf(),
            r.side == side,
            r.height == height,
            r.chunk_loc.loc.x == 0 && r.chunk_loc.loc.y == 0 && r.chunk_loc.loc.z == 0,
            forall|x: int, y: int, z: int|
                r.in_bounds(x, y, z) ==> #[trigger] r.block_id_at(x, y, z) == 1,
    {
        let mut planes: Vec<Vec<Vec<Block>>> = Vec::new();
        for x in 0..side
            invariant
                planes@.len() == x,
                forall|xx: int| 0 <= xx < x ==> (#[trigger] planes@[xx])@.len() == height,
                forall|xx: int, yy: int|
                    0 <= xx < x && 0 <= yy < height ==> (#[trigger] planes@[xx]@[yy])@.len()
                        == side,
                forall|xx: int, yy: int, zz: int|
                    0 <= xx < x && 0 <= yy < height && 0 <= zz < side ==> (#[trigger] planes@[xx]@[yy]@[zz]).block_id == 1,
        {
            let mut plane: Vec<Vec<Block>> = Vec::new();
            for y in 0..height
                invariant
                    plane@.len() == y,
                    forall|yy: int| 0 <= yy < y ==> (#[trigger] plane@[yy])@.len() == side,
                    forall|yy: int, zz: int|
                        0 <= yy < y && 0 <= zz < side ==> (#[trigger] plane@[yy]@[zz]).block_id
                            == 1,
            {
                let mut row: Vec<Block> = Vec::new();
                for z in 0..side
                    invariant
                        row@.len() == z,
                        forall|zz: int| 0 <= zz < z ==> (#[trigger] row@[zz]).block_id == 1,
                {
                    row.push(Block { block_id: 1 });
                }
                plane.push(row);
            }
            planes.push(plane);
        }
        Chunk {
            chunk_loc: ChunkLoc { loc: IntVec3 { x: 0, y: 0, z: 0 } },
            side,
            height,
            blocks: planes,
        }
    }

    /// Creates a new chunk of the default world dimensions, filled with solid
    /// default blocks.
    pub fn new() -> (r: Self)
        ensures
            r.wf(),
            r.side == CHUNKSIZE,
            r.height == WORLDHEIGHT,
            r.chunk_loc.loc.x == 0 && r.chunk_loc.loc.y == 0 && r.chunk_loc.loc.z == 0,
            forall|x: int, y: int, z: int|
                r.in_bounds(x, y, z) ==> #[trigger] r.block_id_at(x, y, z) == 1,
    {
        Self::with_dims(CHUNKSIZE, WORLDHEIGHT)
    }

    /// Reads the material identifier of the cell at (x, y, z).
    pub fn block_at(&self, x: usize, y: usize, z: usize) -> (r: usize)
        requires
            self.wf(),
            x < self.side,
            y < self.height,
            z < self.side,
        ensures
            r == self.block_id_at(x as int, y as int, z as int),
    {
        self.blocks[x][y][z].block_id
    }

    /// Rebuilds every cell of this chunk from per-column terrain heights: a
    /// cell is solid exactly when its elevation lies below its column's
    /// height. This pass is total: every cell is assigned.
    pub fn fill_columns(&mut self, heights: &Vec<Vec<usize>>)
        requires
            old(self).wf(),
            heights@.len() == old(self).side,
            forall|x: int| 0 <= x < old(self).side ==> (#[trigger] heights@[x])@.len() == old(
                self,
            ).side,
        ensures
            final(self).wf(),
            final(self).chunk_loc == old(self).chunk_loc,
            final(self).side == old(self).side,
            final(self).height == old(self).height,
            forall|x: int, y: int, z: int|
                final(self).in_bounds(x, y, z) ==> #[trigger] final(self).block_id_at(x, y, z)
                    == column_block_id(heights@[x]@[z] as int, y),
    {
        let side = self.side;
        let height = self.height;
        let mut planes: Vec<Vec<Vec<Block>>> = Vec::new();
        for x in 0..side
            invariant
                side == self.side,
                height == self.height,
                heights@.len() == side,
                forall|xx: int| 0 <= xx < side ==> (#[trigger] heights@[xx])@.len() == side,
                planes@.len() == x,
                forall|xx: int| 0 <= xx < x ==> (#[trigger] planes@[xx])@.len() == height,
                forall|xx: int, yy: int|
                    0 <= xx < x && 0 <= yy < height ==> (#[trigger] planes@[xx]@[yy])@.len()
                        == side,
                forall|xx: int, yy: int, zz: int|
                    0 <= xx < x && 0 <= yy < height && 0 <= zz < side ==> (#[trigger] planes@[xx]@[yy]@[zz]).block_id == column_block_id(heights@[xx]@[zz] as int, yy),
        {
            let mut plane: Vec<Vec<Block>> = Vec::new();
            for y in 0..height
                invariant
                    side == self.side,
                    height == self.height,
                    heights@.len() == side,
                    forall|xx: int| 0 <= xx < side ==> (#[trigger] heights@[xx])@.len() == side,
                    x < side,
                    plane@.len() == y,
                    forall|yy: int| 0 <= yy < y ==> (#[trigger] plane@[yy])@.len() == side,
                    forall|yy: int, zz: int|
                        0 <= yy < y && 0 <= zz < side ==> (#[trigger] plane@[yy]@[zz]).block_id
                            == column_block_id(heights@[x as int]@[zz] as int, yy),
            {
                let mut row: Vec<Block> = Vec::new();
                for z in 0..side
                    invariant
                        side == self.side,
                        height == self.height,
                        heights@.len() == side,
                        forall|xx: int| 0 <= xx < side ==> (#[trigger] heights@[xx])@.len()
                            == side,
                        x < side,
                        y < height,
                        row@.len() == z,
                        forall|zz: int| 0 <= zz < z ==> (#[trigger] row@[zz]).block_id
                            == column_block_id(heights@[x as int]@[zz] as int, y as int),
                {
                    let h = heights[x][z];
                    let id: usize = if h > y {
                        1
                    } else {
                        0
                    };
                    row.push(Block { block_id: id });
                }
                plane.push(row);
            }
            planes.push(plane);
        }
        self.blocks = planes;
    }
}

impl Clone for Chunk {
    /// Deep copy: the copy carries the same location, dimensions and
    /// cell-for-cell block content.
    fn clone(&self) -> (r: Self)
        ensures
            r.chunk_loc == self.chunk_loc,
            r.side == self.side,
            r.height == self.height,
            r.blocks@.len() == self.blocks@.len(),
            forall|x: int|
                0 <= x < self.blocks@.len() ==> (#[trigger] r.blocks@[x])@.len()
                    == self.blocks@[x]@.len(),
            forall|x: int, y: int|
                0 <= x < self.blocks@.len() && 0 <= y < self.blocks@[x]@.len() ==> (
                #[trigger] r.blocks@[x]@[y])@ == self.blocks@[x]@[y]@,
            self.wf() ==> r.wf() && r.same_content(*self),
    {
        let mut planes: Vec<Vec<Vec<Block>>> = Vec::new();
        for x in 0..self.blocks.len()
            invariant
                planes@.len() == x,
                forall|xx: int|
                    0 <= xx < x ==> (#[trigger] planes@[xx])@.len() == self.blocks@[xx]@.len(),
                forall|xx: int, yy: int|
                    0 <= xx < x && 0 <= yy < self.blocks@[xx]@.len() ==> (#[trigger] planes@[xx]@[yy])@ == self.blocks@[xx]@[yy]@,
        {
            let src_plane = &self.blocks[x];
            let mut plane: Vec<Vec<Block>> = Vec::new();
            for y in 0..src_plane.len()
                invariant
                    src_plane == &self.blocks@[x as int],
                    x < self.blocks@.len(),
                    plane@.len() == y,
                    forall|yy: int|
                        0 <= yy < y ==> (#[trigger] plane@[yy])@ == self.blocks@[x as int]@[yy]@,
            {
                let src_row = &src_plane[y];
                let mut row: Vec<Block> = Vec::new();
                for z in 0..src_row.len()
                    invariant
                        src_plane == &self.blocks@[x as int],
                        src_row == &self.blocks@[x as int]@[y as int],
                        x < self.blocks@.len(),
                        y < self.blocks@[x as int]@.len(),
                        row@.len() == z,
                        forall|zz: int|
                            0 <= zz < z ==> #[trigger] row@[zz] == self.blocks@[x as int]@[y
                                as int]@[zz],
                {
                    row.push(src_row[z]);
                }
                proof {
                    assert(row@ =~= self.blocks@[x as int]@[y as int]@);
                }
                plane.push(row);
            }
            planes.push(plane);
        }
        let r = Chunk {
            chunk_loc: self.chunk_loc,
            side: self.side,
            height: self.height,
            blocks: planes,
        };
        proof {
            if self.wf() {
                assert(r.wf());
                assert(r.same_content(*self));
            }
        }
        r
    }
}

/// The view of a nested height vector as a sequence of columns of heights.
pub open spec fn heights_view(heights: Vec<Vec<usize>>) -> Seq<Seq<usize>> {
    heights@.map_values(|v: Vec<usize>| v@)
}

/// Generation is deterministic: two chunks generated from the same location
/// and the same column heights hold identical content, so regenerating an
/// unloaded location always reproduces the same chunk.
pub proof fn lemma_generation_deterministic(
    a: Chunk,
    b: Chunk,
    loc: ChunkLoc,
    side: int,
    height: int,
    heights: Seq<Seq<usize>>,
)
    requires
        a.generated_from(loc, side, height, heights),
        b.generated_from(loc, side, height, heights),
    ensures
        a.same_content(b),
{
    assert forall|x: int, y: int, z: int| a.in_bounds(x, y, z) implies #[trigger] a.block_id_at(
        x,
        y,
        z,
    ) == b.block_id_at(x, y, z) by {
        assert(a.block_id_at(x, y, z) == column_block_id(heights[x][z] as int, y));
        assert(b.in_bounds(x, y, z));
        assert(b.block_id_at(x, y, z) == column_block_id(heights[x][z] as int, y));
    }
}

/// Failure of a terrain-store request: the location is neither resident nor
/// generatable. Recoverable; never raised by a store whose generation is
/// total.
#[derive(Copy, Clone, Debug, PartialEq, Eq, Structural)]
pub enum TerrainError {
    NotFound,
}

/// Manager for dynamic world loading and unloading: the resident set of
/// chunks, at most one per column.
pub struct DynTerr {
    pub chunks: Vec<Chunk>,
    pub side: usize,
    pub height: usize,
}

impl DynTerr {
    /// Every resident chunk is well formed with the store's dimensions, its
    /// location leaves room for a neighbor step, and no two resident chunks
    /// share a column.
    pub open spec fn wf(self) -> bool {
        &&& forall|i: int|
            0 <= i < self.chunks@.len() ==> {
                &&& (#[trigger] self.chunks@[i]).wf()
                &&& self.chunks@[i].side == self.side
                &&& self.chunks@[i].height == self.height
                &&& loc_in_range(self.chunks@[i].chunk_loc)
            }
        &&& forall|i: int, j: int|
            0 <= i < j < self.chunks@.len() ==> !(#[trigger] self.chunks@[i]).chunk_loc.same_column(
                (#[trigger] self.chunks@[j]).chunk_loc,
            )
    }

    /// Whether a chunk for this column is currently resident.
    pub open spec fn loaded(self, loc: ChunkLoc) -> bool {
        exists|i: int|
            0 <= i < self.chunks@.len() && (#[trigger] self.chunks@[i]).chunk_loc.same_column(loc)
    }

    /// Index of the resident chunk for this column.
    pub open spec fn idx_of(self, loc: ChunkLoc) -> int {
        choose|i: int|
            0 <= i < self.chunks@.len() && (#[trigger] self.chunks@[i]).chunk_loc.same_column(loc)
    }

    /// The resident chunk for this column.
    pub open spec fn chunk_at(self, loc: ChunkLoc) -> Chunk {
        self.chunks@[self.idx_of(loc)]
    }

    /// In a well-formed store, at most one chunk occupies a column, so any
    /// index whose chunk matches the column is the index of that column's
    /// chunk.
    pub proof fn lemma_loaded_unique(self, loc: ChunkLoc, i: int)
        requires
            self.wf(),
            0 <= i < self.chunks@.len(),
            self.chunks@[i].chunk_loc.same_column(loc),
        ensures
            self.loaded(loc),
            self.idx_of(loc) == i,
            self.chunk_at(loc) == self.chunks@[i],
    {
        assert(self.loaded(loc));
        let j = self.idx_of(loc);
        if i < j {
            assert(!self.chunks@[i].chunk_loc.same_column(self.chunks@[j].chunk_loc));
        } else if j < i {
            assert(!self.chunks@[j].chunk_loc.same_column(self.chunks@[i].chunk_loc));
        }
    }

    /// Initializes an empty terrain manager with the default world
    /// dimensions.
    pub fn new() -> (r: Self)
        ensures
            r.wf(),
            r.chunks@.len() == 0,
            r.side == CHUNKSIZE,
            r.height == WORLDHEIGHT,
            forall|loc: ChunkLoc| !r.loaded(loc),
    {
        DynTerr { chunks: Vec::new(), side: CHUNKSIZE, height: WORLDHEIGHT }
    }

    /// Initializes an empty terrain manager with the given chunk dimensions.
    pub fn with_dims(side: usize, height: usize) -> (r: Self)
        ensures
            r.wf(),
            r.chunks@.len() == 0,
            r.side == side,
            r.height == height,
            forall|loc: ChunkLoc| !r.loaded(loc),
    {
        DynTerr { chunks: Vec::new(), side, height }
    }

    /// Finds the index of the resident chunk for this column, if any.
    fn find_index(&self, c_loc: ChunkLoc) -> (r: Option<usize>)
        requires
            self.wf(),
        ensures
            match r {
                Some(i) => i < self.chunks@.len() && self.chunks@[i as int].chunk_loc.same_column(
                    c_loc,
                ) && self.loaded(c_loc) && self.idx_of(c_loc) == i,
                None => !self.loaded(c_loc),
            },
    {
        let n = self.chunks.len();
        for i in 0..n
            invariant
                n == self.chunks@.len(),
                self.wf(),
                forall|k: int|
                    0 <= k < i ==> !(#[trigger] self.chunks@[k]).chunk_loc.same_column(c_loc),
        {
            if self.chunks[i].chunk_loc.compare(c_loc) {
                proof {
                    self.lemma_loaded_unique(c_loc, i as int);
                }
                return Some(i);
            }
        }
        None
    }

    /// Borrows the resident chunk for this column, if any.
    pub fn find_chunk(&self, c_loc: ChunkLoc) -> (r: Option<&Chunk>)
        requires
            self.wf(),
        ensures
            match r {
                Some(c) => self.loaded(c_loc) && *c == self.chunk_at(c_loc),
                None => !self.loaded(c_loc),
            },
    {
        match self.find_index(c_loc) {
            Some(i) => Some(&self.chunks[i]),
            None => None,
        }
    }

    /// Checks if a chunk for this column is currently in memory.
    pub fn is_chunk_loaded(&self, c_loc: ChunkLoc) -> (r: bool)
        requires
            self.wf(),
        ensures
            r == self.loaded(c_loc),
    {
        self.find_index(c_loc).is_some()
    }

    /// Checks if the chunk exists in persistent storage. No persistent
    /// storage is modeled, so nothing ever does.
    pub fn does_chunk_exist(&self, _c_loc: ChunkLoc) -> (r: bool)
        ensures
            r == false,
    {
        false
    }

    /// Determines if a chunk needs to be generated: it is neither in memory
    /// nor in persistent storage.
    pub fn should_gen_chunk(&self, c_loc: ChunkLoc) -> (r: bool)
        requires
            self.wf(),
        ensures
            r == !self.loaded(c_loc),
    {
        !self.is_chunk_loaded(c_loc) && !self.does_chunk_exist(c_loc)
    }

    /// Creates a chunk at the given location and fills it from the given
    /// per-column terrain heights.
    pub fn gen_chunk(
        c_loc: ChunkLoc,
        side: usize,
        height: usize,
        heights: &Vec<Vec<usize>>,
    ) -> (r: Chunk)
        requires
            heights@.len() == side,
            forall|x: int| 0 <= x < side ==> (#[trigger] heights@[x])@.len() == side,
        ensures
            r.generated_from(c_loc, side as int, height as int, heights_view(*heights)),
    {
        let mut chunk = Chunk::with_dims(side, height);
        chunk.chunk_loc = c_loc;
        chunk.fill_columns(heights);
        chunk
    }

    /// Retrieves the chunk for this column: a copy of the resident chunk if
    /// one is loaded, otherwise a chunk freshly generated from the given
    /// per-column heights, which is inserted into the resident set and
    /// returned. Succeeds on every input.
    pub fn get_chunk(&mut self, c_loc: ChunkLoc, heights: &Vec<Vec<usize>>) -> (r: Result<
        Chunk,
        TerrainError,
    >)
        requires
            old(self).wf(),
            loc_in_range(c_loc),
            heights@.len() == old(self).side,
            forall|x: int| 0 <= x < old(self).side ==> (#[trigger] heights@[x])@.len() == old(
                self,
            ).side,
        ensures
            final(self).wf(),
            final(self).side == old(self).side,
            final(self).height == old(self).height,
            r is Ok,
            r matches Ok(c) ==> c.wf() && c.side == old(self).side && c.height == old(self).height
                && c.chunk_loc.same_column(c_loc),
            old(self).loaded(c_loc) ==> {
                &&& *final(self) == *old(self)
                &&& (r matches Ok(c) ==> c.same_content(old(self).chunk_at(c_loc)))
            },
            !old(self).loaded(c_loc) ==> {
                &&& (r matches Ok(c) ==> c.generated_from(
                    c_loc,
                    old(self).side as int,
                    old(self).height as int,
                    heights_view(*heights),
                ))
                &&& final(self).chunks@.len() == old(self).chunks@.len() + 1
                &&& (forall|i: int|
                    0 <= i < old(self).chunks@.len() ==> final(self).chunks@[i] == old(
                        self,
                    ).chunks@[i])
                &&& final(self).chunks@[old(self).chunks@.len() as int].generated_from(
                    c_loc,
                    old(self).side as int,
                    old(self).height as int,
                    heights_view(*heights),
                )
                &&& final(self).loaded(c_loc)
            },
            forall|l: ChunkLoc| #[trigger]
                final(self).loaded(l) == (old(self).loaded(l) || l.same_column(c_loc)),
    {
        match self.find_index(c_loc) {
            Some(i) => {
                let c = self.chunks[i].clone();
                Ok(c)
            },
            None => {
                let chunk = Self::gen_chunk(c_loc, self.side, self.height, heights);
                self.chunks.push(chunk.clone());
                proof {
                    let n = self.chunks@.len() - 1;
                    assert(self.chunks@[n].chunk_loc == c_loc);
                    assert(forall|i: int, j: int|
                        0 <= i < j < self.chunks@.len() ==> !(
                        #[trigger] self.chunks@[i]).chunk_loc.same_column(
                            (#[trigger] self.chunks@[j]).chunk_loc,
                        )) by {
                        assert(forall|i: int|
                            0 <= i < n ==> !(#[trigger] self.chunks@[i]).chunk_loc.same_column(
                                c_loc,
                            ));
                    }
                    self.lemma_loaded_unique(c_loc, n);
                    assert(forall|l: ChunkLoc| #[trigger]
                        self.loaded(l) == (old(self).loaded(l) || l.same_column(c_loc))) by {
                        assert forall|l: ChunkLoc| old(self).loaded(l) implies #[trigger] self.loaded(
                            l,
                        ) by {
                            let k = choose|k: int|
                                0 <= k < old(self).chunks@.len() && (
                                #[trigger] old(self).chunks@[k]).chunk_loc.same_column(l);
                            assert(self.chunks@[k].chunk_loc.same_column(l));
                        }
                        assert(forall|l: ChunkLoc|
                            l.same_column(c_loc) ==> #[trigger] self.loaded(l)) by {
                            assert(forall|l: ChunkLoc|
                                l.same_column(c_loc) ==> self.chunks@[n].chunk_loc.same_column(l));
                        }
                        assert(forall|l: ChunkLoc| #[trigger]
                            self.loaded(l) && !l.same_column(c_loc) ==> old(self).loaded(l));
                    }
                }
                Ok(chunk)
            },
        }
    }

    /// Removes the chunk for this column from memory, reporting whether one
    /// was present. Chunks of other columns are untouched.
    pub fn deload_chunk(&mut self, c_loc: ChunkLoc) -> (r: bool)
        requires
            old(self).wf(),
        ensures
            final(self).wf(),
            final(self).side == old(self).side,
            final(self).height == old(self).height,
            r == old(self).loaded(c_loc),
            !final(self).loaded(c_loc),
            forall|l: ChunkLoc|
                !l.same_column(c_loc) ==> #[trigger] final(self).loaded(l) == old(self).loaded(l),
            forall|l: ChunkLoc|
                !l.same_column(c_loc) && old(self).loaded(l) ==> #[trigger] final(self).chunk_at(l)
                    == old(self).chunk_at(l),
            r ==> final(self).chunks@.len() == old(self).chunks@.len() - 1,
            !r ==> *final(self) == *old(self),
    {
        match self.find_index(c_loc) {
            Some(i) => {
                self.chunks.remove(i);
                proof {
                    let old_s = old(self).chunks@;
                    let new_s = self.chunks@;
                    assert(new_s == old_s.remove(i as int));
                    assert(forall|k: int|
                        0 <= k < new_s.len() ==> #[trigger] new_s[k] == (if k < i {
                            old_s[k]
                        } else {
                            old_s[k + 1]
                        }));
                    assert(self.wf());
                    assert(!self.loaded(c_loc)) by {
                        if self.loaded(c_loc) {
                            let k = choose|k: int|
                                0 <= k < new_s.len() && (
                                #[trigger] new_s[k]).chunk_loc.same_column(c_loc);
                            let ko: int = if k < i {
                                k
                            } else {
                                k + 1
                            };
                            assert(old_s[ko].chunk_loc.same_column(c_loc));
                            old(self).lemma_loaded_unique(c_loc, ko);
                        }
                    }
                    assert(forall|l: ChunkLoc|
                        !l.same_column(c_loc) && old(self).loaded(l) ==> #[trigger] self.loaded(
                            l,
                        )) by {
                        assert forall|l: ChunkLoc|
                            !l.same_column(c_loc) && old(self).loaded(l) implies #[trigger] self.loaded(
                            l,
                        ) by {
                            let ko = choose|ko: int|
                                0 <= ko < old_s.len() && (
                                #[trigger] old_s[ko]).chunk_loc.same_column(l);
                            if ko < i {
                                assert(new_s[ko].chunk_loc.same_column(l));
                            } else {
                                assert(ko != i);
                                assert(new_s[ko - 1].chunk_loc.same_column(l));
                            }
                        }
                    }
                    assert(forall|l: ChunkLoc|
                        !l.same_column(c_loc) && old(self).loaded(l) ==> #[trigger] self.chunk_at(
                            l,
                        ) == old(self).chunk_at(l)) by {
                        assert forall|l: ChunkLoc|
                            !l.same_column(c_loc) && old(self).loaded(l) implies #[trigger] self.chunk_at(
                            l,
                        ) == old(self).chunk_at(l) by {
                            assert(self.loaded(l));
                            let kn = self.idx_of(l);
                            assert(0 <= kn < new_s.len() && new_s[kn].chunk_loc.same_column(l));
                            let ko: int = if kn < i {
                                kn
                            } else {
                                kn + 1
                            };
                            assert(old_s[ko].chunk_loc.same_column(l));
                            old(self).lemma_loaded_unique(l, ko);
                            assert(old(self).chunk_at(l) == old_s[ko]);
                            assert(self.chunk_at(l) == new_s[kn]);
                        }
                    }
                }
                true
            },
            None => false,
        }
    }
}

} // verus!
