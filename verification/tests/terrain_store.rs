use voxel_stream::terrain::{Chunk, DynTerr};
use voxel_stream::utils::{ChunkLoc, IntVec3};
use voxel_stream::WorldCfg;

fn flat_heights(side: usize, h: usize) -> Vec<Vec<usize>> {
    (0..side).map(|_| vec![h; side]).collect()
}

fn loc(x: i32, z: i32) -> ChunkLoc {
    ChunkLoc { loc: IntVec3 { x, y: 0, z } }
}

fn chunk_cells(c: &Chunk) -> Vec<usize> {
    let mut cells = Vec::new();
    for x in 0..c.side {
        for y in 0..c.height {
            for z in 0..c.side {
                cells.push(c.block_at(x, y, z));
            }
        }
    }
    cells
}

#[test]
fn it_works() {
    let result = voxel_stream::add(2, 2);
    assert_eq!(result, 4);
}

#[test]
fn block_from_height_solid_below_column_top() {
    assert_eq!(voxel_stream::block_from_height(0, 3).block_id, 1);
    assert_eq!(voxel_stream::block_from_height(2, 3).block_id, 1);
    assert_eq!(voxel_stream::block_from_height(3, 3).block_id, 0);
    assert_eq!(voxel_stream::block_from_height(7, 0).block_id, 0);
}

#[test]
fn world_cfg_carries_configuration() {
    let cfg = WorldCfg { world_size_b: 512, world_height: 64, seed: 10 };
    assert_eq!(cfg.world_size_b, 512);
    assert_eq!(cfg.world_height, 64);
    assert_eq!(cfg.seed, 10);
}

#[test]
fn new_chunk_is_solid_with_default_dims() {
    let c = Chunk::new();
    assert_eq!(c.side, voxel_stream::utils::CHUNKSIZE);
    assert_eq!(c.height, voxel_stream::utils::WORLDHEIGHT);
    assert_eq!(c.block_at(0, 0, 0), 1);
    assert_eq!(c.block_at(31, 63, 31), 1);
}

#[test]
fn fill_columns_sets_solid_below_height() {
    let mut c = Chunk::with_dims(2, 4);
    let heights = vec![vec![0, 1], vec![2, 4]];
    c.fill_columns(&heights);
    // column (0,0): height 0, all air
    for y in 0..4 {
        assert_eq!(c.block_at(0, y, 0), 0);
    }
    // column (0,1): height 1
    assert_eq!(c.block_at(0, 0, 1), 1);
    assert_eq!(c.block_at(0, 1, 1), 0);
    // column (1,0): height 2
    assert_eq!(c.block_at(1, 1, 0), 1);
    assert_eq!(c.block_at(1, 2, 0), 0);
    // column (1,1): height 4, full column
    for y in 0..4 {
        assert_eq!(c.block_at(1, y, 1), 1);
    }
}

#[test]
fn get_chunk_generates_then_caches() {
    let mut terr = DynTerr::with_dims(2, 3);
    let hs = flat_heights(2, 2);
    let l = loc(1, -1);
    assert!(!terr.is_chunk_loaded(l));
    let c = terr.get_chunk(l, &hs).unwrap();
    assert_eq!(c.chunk_loc.loc.x, 1);
    assert_eq!(c.chunk_loc.loc.z, -1);
    assert_eq!(c.block_at(0, 1, 0), 1);
    assert_eq!(c.block_at(0, 2, 0), 0);
    assert!(terr.is_chunk_loaded(l));
    // a second request returns the cached copy even if the height input
    // differs: residency wins
    let other = flat_heights(2, 0);
    let c2 = terr.get_chunk(l, &other).unwrap();
    assert_eq!(chunk_cells(&c), chunk_cells(&c2));
}

#[test]
fn regeneration_is_deterministic() {
    let mut terr = DynTerr::with_dims(3, 5);
    let heights = vec![vec![0, 1, 2], vec![3, 4, 5], vec![1, 0, 2]];
    let l = loc(-2, 7);
    let first = terr.get_chunk(l, &heights).unwrap();
    assert!(terr.deload_chunk(l));
    assert!(!terr.is_chunk_loaded(l));
    let second = terr.get_chunk(l, &heights).unwrap();
    assert_eq!(chunk_cells(&first), chunk_cells(&second));
    assert_eq!(first.chunk_loc, second.chunk_loc);
}

#[test]
fn deload_reports_presence() {
    let mut terr = DynTerr::with_dims(1, 1);
    let hs = flat_heights(1, 1);
    let l = loc(0, 0);
    assert!(!terr.deload_chunk(l));
    terr.get_chunk(l, &hs).unwrap();
    assert!(terr.deload_chunk(l));
    assert!(!terr.deload_chunk(l));
}

#[test]
fn deload_leaves_other_columns_alone() {
    let mut terr = DynTerr::with_dims(1, 2);
    let hs = flat_heights(1, 1);
    let a = loc(0, 0);
    let b = loc(1, 0);
    terr.get_chunk(a, &hs).unwrap();
    terr.get_chunk(b, &hs).unwrap();
    assert!(terr.deload_chunk(a));
    assert!(!terr.is_chunk_loaded(a));
    assert!(terr.is_chunk_loaded(b));
}

#[test]
fn location_identity_ignores_y() {
    let a = ChunkLoc { loc: IntVec3 { x: 3, y: 0, z: -4 } };
    let b = ChunkLoc { loc: IntVec3 { x: 3, y: 9, z: -4 } };
    let c = ChunkLoc { loc: IntVec3 { x: 3, y: 0, z: 4 } };
    assert!(a.compare(b));
    assert!(b.compare(a));
    assert!(!a.compare(c));
}

#[test]
fn to_world_loc_scales_by_chunk_side() {
    let l = ChunkLoc { loc: IntVec3 { x: 2, y: 0, z: -3 } };
    let w = l.to_world_loc();
    assert_eq!(w.x, 64);
    assert_eq!(w.y, 0);
    assert_eq!(w.z, -96);
}

#[test]
fn int_vec3_zero_is_origin() {
    let v = IntVec3::zero();
    assert_eq!(v.x, 0);
    assert_eq!(v.y, 0);
    assert_eq!(v.z, 0);
}
