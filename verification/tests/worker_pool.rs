use voxel_stream::chunk_loader::{ChunkWorkerPool, WorkItem};
use voxel_stream::terrain::DynTerr;
use voxel_stream::utils::{ChunkLoc, IntVec3};

fn loc(x: i32, z: i32) -> ChunkLoc {
    ChunkLoc { loc: IntVec3 { x, y: 0, z } }
}

fn flat_heights(side: usize, h: usize) -> Vec<Vec<usize>> {
    (0..side).map(|_| vec![h; side]).collect()
}

fn chebyshev(l: &ChunkLoc) -> i32 {
    l.loc.x.abs().max(l.loc.z.abs())
}

#[test]
fn ring_order_radius_three() {
    let mut pool = ChunkWorkerPool::new(1);
    let out = pool.queue_missing_chunks(&Vec::new(), 3);
    // all 25 locations of the 5 x 5 area, nearest ring first
    assert_eq!(out.len(), 25);
    assert_eq!(out[0], loc(0, 0));
    let mut last = 0;
    for l in &out {
        let d = chebyshev(l);
        assert!(d >= last, "enqueue order regressed in distance");
        assert!(d < 3);
        last = d;
    }
    assert_eq!(out.iter().filter(|l| chebyshev(l) == 1).count(), 8);
    assert_eq!(out.iter().filter(|l| chebyshev(l) == 2).count(), 16);
}

#[test]
fn queue_skips_loaded_locations() {
    let mut pool = ChunkWorkerPool::new(1);
    let loaded = vec![loc(0, 0), loc(1, 1)];
    let out = pool.queue_missing_chunks(&loaded, 2);
    assert_eq!(out.len(), 7);
    assert!(!out.contains(&loc(0, 0)));
    assert!(!out.contains(&loc(1, 1)));
}

#[test]
fn requeue_before_drain_adds_nothing() {
    let mut pool = ChunkWorkerPool::new(4);
    let first = pool.queue_missing_chunks(&Vec::new(), 3);
    assert_eq!(first.len(), 25);
    let second = pool.queue_missing_chunks(&Vec::new(), 3);
    assert!(second.is_empty());
    let third = pool.queue_missing_chunks(&Vec::new(), 3);
    assert!(third.is_empty());
}

#[test]
fn pending_cleanup_after_drain() {
    let mut pool = ChunkWorkerPool::new(1);
    let out = pool.queue_missing_chunks(&Vec::new(), 1);
    assert_eq!(out, vec![loc(0, 0)]);
    assert!(pool.pending.contains(&loc(0, 0)));

    // a worker finishes the chunk; the main thread drains it
    let mut terr = DynTerr::with_dims(1, 1);
    let hs = flat_heights(1, 1);
    let chunk = terr.get_chunk(loc(0, 0), &hs).unwrap();
    let results = vec![chunk];
    let loaded = vec![loc(0, 0)];
    let jobs = pool.apply_ready_chunks(&results, &terr, &loaded);
    assert!(!pool.pending.contains(&loc(0, 0)));
    assert_eq!(jobs.len(), 1);
    assert_eq!(jobs[0].chunk.chunk_loc, loc(0, 0));

    // while the renderer still has it loaded, it is not re-dispatched
    let again = pool.queue_missing_chunks(&loaded, 1);
    assert!(again.is_empty());

    // once unloaded, it may be dispatched again
    let refetch = pool.queue_missing_chunks(&Vec::new(), 1);
    assert_eq!(refetch, vec![loc(0, 0)]);
}

#[test]
fn apply_ready_plans_neighbor_recull() {
    let mut terr = DynTerr::with_dims(2, 2);
    let hs = flat_heights(2, 2);
    // the neighbor at (1, 0) is already resident and loaded by the renderer
    terr.get_chunk(loc(1, 0), &hs).unwrap();
    // the chunk at (0, 0) just finished generating
    let fresh = terr.get_chunk(loc(0, 0), &hs).unwrap();

    let mut pool = ChunkWorkerPool::new(1);
    pool.queue_missing_chunks(&vec![loc(1, 0)], 1);
    let jobs = pool.apply_ready_chunks(&vec![fresh], &terr, &vec![loc(1, 0)]);

    // one job meshes the new chunk, with the resident neighbor supplied
    assert_eq!(jobs[0].chunk.chunk_loc, loc(0, 0));
    assert!(jobs[0].neighbors.pos_x.is_some());
    assert!(jobs[0].neighbors.neg_x.is_none());
    // and one job remeshes the neighbor, seeing the new chunk on its -x side
    assert_eq!(jobs.len(), 2);
    assert_eq!(jobs[1].chunk.chunk_loc, loc(1, 0));
    assert!(jobs[1].neighbors.neg_x.is_some());
}

#[test]
fn apply_ready_keeps_every_result() {
    let mut terr = DynTerr::with_dims(1, 1);
    let hs = flat_heights(1, 1);
    let c1 = terr.get_chunk(loc(0, 0), &hs).unwrap();
    let c2 = terr.get_chunk(loc(5, 5), &hs).unwrap();
    let mut pool = ChunkWorkerPool::new(2);
    let jobs = pool.apply_ready_chunks(&vec![c1, c2], &terr, &Vec::new());
    assert!(jobs.iter().any(|j| j.chunk.chunk_loc == loc(0, 0)));
    assert!(jobs.iter().any(|j| j.chunk.chunk_loc == loc(5, 5)));
}

#[test]
fn shutdown_emits_one_sentinel_per_worker() {
    let pool = ChunkWorkerPool::new(3);
    let msgs = pool.shutdown();
    assert_eq!(msgs.len(), 3);
    for m in &msgs {
        assert!(matches!(m, WorkItem::Stop));
    }
}

#[test]
fn worker_step_generates_and_halts() {
    let mut terr = DynTerr::with_dims(1, 2);
    let hs = flat_heights(1, 1);
    let r = ChunkWorkerPool::worker_step(&mut terr, &WorkItem::Generate(loc(2, 3)), &hs);
    let chunk = r.expect("generate must yield a chunk");
    assert_eq!(chunk.chunk_loc, loc(2, 3));
    assert_eq!(chunk.block_at(0, 0, 0), 1);
    assert_eq!(chunk.block_at(0, 1, 0), 0);
    assert!(terr.is_chunk_loaded(loc(2, 3)));

    let halt = ChunkWorkerPool::worker_step(&mut terr, &WorkItem::Stop, &hs);
    assert!(halt.is_none());
}
