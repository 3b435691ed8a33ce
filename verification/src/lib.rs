//! A voxel-world streaming core: procedural terrain chunks generated on
//! demand, a worker-pool schedule that requests missing chunks nearest-first,
//! and a mesher that turns chunks into geometry buffers with hidden-surface
//! removal.

pub mod chunk_loader;
pub mod mesh_gen;
pub mod terrain;
pub mod utils;

use vstd::prelude::*;

verus! {

/// Externally supplied world configuration: world size in blocks, world
/// height in blocks, and the terrain seed.
pub struct WorldCfg {
    pub world_size_b: usize,
    pub world_height: usize,
    pub seed: u32,
}

/// The block a terrain column holds at one elevation: solid while the
/// column's height exceeds the elevation, air from there up. The column
/// height itself comes from the terrain noise, sampled outside this crate.
pub fn block_from_height(y: usize, height: usize) -> (r: crate::terrain::Block)
    ensures
        r.block_id == crate::terrain::column_block_id(height as int, y as int),
{
    if height > y {
        crate::terrain::Block { block_id: 1 }
    } else {
        crate::terrain::Block { block_id: 0 }
    }
}

/// Adds two numbers, as long as the sum fits in a machine word.
pub fn add(left: u64, right: u64) -> (r: u64)
    requires
        left + right <= u64::MAX,
    ensures
        r == left + right,
{
    left + right
}

} // verus!
