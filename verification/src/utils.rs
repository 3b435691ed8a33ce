//! Integer coordinate model: chunk locations, world-space conversion, and the
//! world-size constants the streaming core is configured with.

use vstd::prelude::*;

verus! {

/// Side length of a chunk, in blocks, along the x and z axes.
pub const CHUNKSIZE: usize = 32;

/// Height of the world (and of every chunk), in blocks.
pub const WORLDHEIGHT: usize = 64;

/// Half the world size, in chunks.
pub const WORLDSIZE_CHUNK_REL: usize = 8;

/// Full world size, in chunks.
pub const WORLDSIZE_CHUNK: usize = WORLDSIZE_CHUNK_REL * 2;

/// Full world size, in blocks.
pub const WORLDSIZE_BLOCKS: usize = WORLDSIZE_CHUNK * CHUNKSIZE;

/// Streaming radius: how many rings of chunks around the origin are requested.
pub const RENDER_DISTANCE: usize = 16;

/// Streaming radius, in blocks.
pub const REND_DIST_BLOCKS: usize = RENDER_DISTANCE * CHUNKSIZE;

/// Whether a location's x and z components leave room for one step in every
/// direction without overflowing a machine integer.
pub open spec fn loc_in_range(loc: ChunkLoc) -> bool {
    &&& i32::MIN < loc.loc.x < i32::MAX
    &&& i32::MIN < loc.loc.z < i32::MAX
}

/// A three-component integer vector.
#[derive(Debug, Clone, Copy, PartialEq, Eq, Structural, Hash)]
pub struct IntVec3 {
    pub x: i32,
    pub y: i32,
    pub z: i32,
}

impl IntVec3 {
    /// The origin vector.
    pub fn zero() -> (r: Self)
        ensures
            r.x == 0 && r.y == 0 && r.z == 0,
    {
        Self { x: 0, y: 0, z: 0 }
    }
}

/// Identifies one vertical column of the world. Two locations name the same
/// column exactly when their x and z components agree; y plays no part in
/// identity.
#[derive(Debug, Clone, Copy, PartialEq, Eq, Structural, Hash)]
pub struct ChunkLoc {
    pub loc: IntVec3,
}

impl ChunkLoc {
    /// Whether `self` and `other` name the same column (x and z agree).
    pub open spec fn same_column(self, other: ChunkLoc) -> bool {
        self.loc.x == other.loc.x && self.loc.z == other.loc.z
    }

    /// Chebyshev distance of this location from the origin, on the x/z plane.
    pub open spec fn chebyshev(self) -> int {
        vstd::math::max(
            vstd::math::abs(self.loc.x as int) as int,
            vstd::math::abs(self.loc.z as int) as int,
        )
    }

    /// World-space origin of this chunk: the location scaled by the chunk
    /// side length on every axis.
    pub fn to_world_loc(self) -> (r: IntVec3)
        requires
            i32::MIN <= self.loc.x * (CHUNKSIZE as int) <= i32::MAX,
            i32::MIN <= self.loc.y * (CHUNKSIZE as int) <= i32::MAX,
            i32::MIN <= self.loc.z * (CHUNKSIZE as int) <= i32::MAX,
        ensures
            r.x == self.loc.x * (CHUNKSIZE as int),
            r.y == self.loc.y * (CHUNKSIZE as int),
            r.z == self.loc.z * (CHUNKSIZE as int),
    {
        let chunk_size = CHUNKSIZE as i32;
        IntVec3 {
            x: self.loc.x * chunk_size,
            y: self.loc.y * chunk_size,
            z: self.loc.z * chunk_size,
        }
    }

    /// Column-identity comparison: true exactly when the x and z components
    /// agree.
    pub fn compare(&self, other: ChunkLoc) -> (r: bool)
        ensures
            r == self.same_column(other),
    {
        if self.loc.x == other.loc.x && self.loc.z == other.loc.z {
            true
        } else {
            false
        }
    }
}

} // verus!
