//! The worker-pool schedule: which chunk locations to request and in what
//! order, which locations are pending, and what must be meshed when a
//! finished chunk arrives. The pool's decisions are pure functions of its
//! state; the surrounding program runs the actual worker threads, feeding
//! locations out and finished chunks back in.

use vstd::prelude::*;

use crate::mesh_gen::ChunkNeighbors;
use crate::terrain::{Chunk, DynTerr};
use crate::utils::{loc_in_range, ChunkLoc, IntVec3};

verus! {

/// A message on the shared work queue: a location to generate, or the
/// shutdown sentinel that makes a worker exit its loop.
#[derive(Clone, Copy, Debug, PartialEq, Eq, Structural)]
pub enum WorkItem {
    Generate(ChunkLoc),
    Stop,
}

/// One meshing task: a chunk to (re)mesh together with the neighbor
/// information to cull its boundary faces against.
pub struct MeshJob {
    pub chunk: Chunk,
    pub neighbors: ChunkNeighbors,
}

/// A sequence of locations without repetition.
pub open spec fn nodup(s: Seq<ChunkLoc>) -> bool {
    forall|i: int, j: int| 0 <= i < j < s.len() ==> s[i] != s[j]
}

/// The location one chunk step away from `loc` on the horizontal plane.
pub open spec fn offset_loc(loc: ChunkLoc, dx: int, dz: int) -> ChunkLoc {
    ChunkLoc { loc: IntVec3 { x: (loc.loc.x + dx) as i32, y: 0, z: (loc.loc.z + dz) as i32 } }
}

/// Whether a location belongs to the streaming area: the origin's plane, at
/// Chebyshev distance below the streaming radius.
pub open spec fn candidate(loc: ChunkLoc, radius: int) -> bool {
    loc.loc.y == 0 && loc.chebyshev() < radius
}

/// Whether a location was already dealt with by the schedule: the renderer
/// has it, it was pending before this call, or this call enqueued it.
pub open spec fn handled(
    loaded: Seq<ChunkLoc>,
    base: Seq<ChunkLoc>,
    out: Seq<ChunkLoc>,
    loc: ChunkLoc,
) -> bool {
    loaded.contains(loc) || base.contains(loc) || out.contains(loc)
}

/// Everything handled stays handled when one more location is enqueued, and
/// the enqueued location is handled.
proof fn lemma_handled_push(
    loaded: Seq<ChunkLoc>,
    base: Seq<ChunkLoc>,
    out: Seq<ChunkLoc>,
    v: ChunkLoc,
)
    ensures
        forall|loc: ChunkLoc|
            handled(loaded, base, out, loc) ==> #[trigger] handled(loaded, base, out.push(v), loc),
        handled(loaded, base, out.push(v), v),
{
    assert forall|loc: ChunkLoc| handled(loaded, base, out, loc) implies #[trigger] handled(
        loaded,
        base,
        out.push(v),
        loc,
    ) by {
        if out.contains(loc) {
            let k = choose|k: int| 0 <= k < out.len() && out[k] == loc;
            assert(out.push(v)[k] == loc);
        }
    }
    assert(out.push(v)[out.len() as int] == v);
}

/// Pushing a location that is not yet present keeps a sequence free of
/// repetition.
proof fn lemma_nodup_push(s: Seq<ChunkLoc>, v: ChunkLoc)
    requires
        nodup(s),
        !s.contains(v),
    ensures
        nodup(s.push(v)),
{
    assert forall|i: int, j: int| 0 <= i < j < s.push(v).len() implies s.push(v)[i] != s.push(v)[j]
        by {
        if j == s.len() {
            if s.push(v)[i] == v {
                assert(s[i] == v);
                assert(s.contains(v));
            }
        }
    }
}

/// Checks whether a location occurs in a list of locations.
fn locs_contain(v: &Vec<ChunkLoc>, loc: ChunkLoc) -> (r: bool)
    ensures
        r == v@.contains(loc),
{
    let n = v.len();
    for i in 0..n
        invariant
            n == v@.len(),
            forall|k: int| 0 <= k < i ==> v@[k] != loc,
    {
        if v[i].loc.x == loc.loc.x && v[i].loc.y == loc.loc.y && v[i].loc.z == loc.loc.z {
            return true;
        }
    }
    false
}

/// Whether an optional chunk is exactly the store's answer for a column:
/// a copy of the resident chunk if the column is loaded, absent otherwise.
pub open spec fn neighbor_matches(terr: DynTerr, loc: ChunkLoc, opt: Option<Chunk>) -> bool {
    match opt {
        Some(c) => {
            &&& terr.loaded(loc)
            &&& c.same_content(terr.chunk_at(loc))
            &&& c.wf()
            &&& c.side == terr.side
            &&& c.height == terr.height
        },
        None => !terr.loaded(loc),
    }
}

/// Whether a neighbor set is exactly the store's view around a location: one
/// entry per horizontal direction, present if and only if that column is
/// resident.
pub open spec fn neighbors_match(terr: DynTerr, loc: ChunkLoc, n: ChunkNeighbors) -> bool {
    &&& neighbor_matches(terr, offset_loc(loc, 1, 0), n.pos_x)
    &&& neighbor_matches(terr, offset_loc(loc, -1, 0), n.neg_x)
    &&& neighbor_matches(terr, offset_loc(loc, 0, 1), n.pos_z)
    &&& neighbor_matches(terr, offset_loc(loc, 0, -1), n.neg_z)
}

/// Copies the resident chunk for a column out of the store, if any.
fn copy_resident(terr: &DynTerr, loc: ChunkLoc) -> (r: Option<Chunk>)
    requires
        terr.wf(),
    ensures
        neighbor_matches(*terr, loc, r),
{
    match terr.find_chunk(loc) {
        Some(c) => {
            proof {
                let i = terr.idx_of(loc);
                assert(0 <= i < terr.chunks@.len() && terr.chunks@[i].chunk_loc.same_column(loc));
                assert(terr.chunks@[i].wf());
            }
            Some(c.clone())
        },
        None => None,
    }
}

/// Collects the store's four horizontal neighbors of a location.
fn neighbors_of(terr: &DynTerr, loc: ChunkLoc) -> (r: ChunkNeighbors)
    requires
        terr.wf(),
        loc_in_range(loc),
    ensures
        neighbors_match(*terr, loc, r),
{
    let pos_x = copy_resident(
        terr,
        ChunkLoc { loc: IntVec3 { x: loc.loc.x + 1, y: 0, z: loc.loc.z } },
    );
    let neg_x = copy_resident(
        terr,
        ChunkLoc { loc: IntVec3 { x: loc.loc.x - 1, y: 0, z: loc.loc.z } },
    );
    let pos_z = copy_resident(
        terr,
        ChunkLoc { loc: IntVec3 { x: loc.loc.x, y: 0, z: loc.loc.z + 1 } },
    );
    let neg_z = copy_resident(
        terr,
        ChunkLoc { loc: IntVec3 { x: loc.loc.x, y: 0, z: loc.loc.z - 1 } },
    );
    ChunkNeighbors { pos_x, neg_x, pos_z, neg_z }
}

/// Removes a location from a duplicate-free list of locations, if present.
fn remove_loc(v: &mut Vec<ChunkLoc>, loc: ChunkLoc)
    requires
        nodup(old(v)@),
    ensures
        nodup(final(v)@),
        forall|l: ChunkLoc| #[trigger]
            final(v)@.contains(l) <==> (old(v)@.contains(l) && l != loc),
{
    let n = v.len();
    for i in 0..n
        invariant
            n == v@.len(),
            v@ == old(v)@,
            nodup(v@),
            forall|k: int| 0 <= k < i ==> v@[k] != loc,
    {
        if v[i].loc.x == loc.loc.x && v[i].loc.y == loc.loc.y && v[i].loc.z == loc.loc.z {
            let ghost before = v@;
            v.remove(i);
            proof {
                assert(before[i as int] == loc);
                assert(v@ == before.remove(i as int));
                assert(forall|k: int|
                    0 <= k < v@.len() ==> #[trigger] v@[k] == (if k < i {
                        before[k]
                    } else {
                        before[k + 1]
                    }));
                assert forall|a: int, b: int| 0 <= a < b < v@.len() implies v@[a] != v@[b] by {
                    let ao: int = if a < i {
                        a
                    } else {
                        a + 1
                    };
                    let bo: int = if b < i {
                        b
                    } else {
                        b + 1
                    };
                    assert(v@[a] == before[ao] && v@[b] == before[bo]);
                    assert(ao < bo);
                }
                assert(nodup(v@));
                assert forall|l: ChunkLoc| #[trigger]
                    v@.contains(l) <==> (before.contains(l) && l != loc) by {
                    if v@.contains(l) {
                        let k = choose|k: int| 0 <= k < v@.len() && v@[k] == l;
                        let ko: int = if k < i {
                            k
                        } else {
                            k + 1
                        };
                        assert(before[ko] == l);
                        assert(before.contains(l));
                        if l == loc {
                            assert(before[ko] == before[i as int] && ko != i);
                        }
                    }
                    if before.contains(l) && l != loc {
                        let ko = choose|ko: int| 0 <= ko < before.len() && before[ko] == l;
                        if ko < i {
                            assert(v@[ko] == l);
                        } else {
                            assert(ko != i);
                            assert(v@[ko - 1] == l);
                        }
                    }
                }
            }
            return ;
        }
    }
    proof {
        assert forall|l: ChunkLoc| #[trigger]
            v@.contains(l) <==> (old(v)@.contains(l) && l != loc) by {
            if v@.contains(l) && l == loc {
                let k = choose|k: int| 0 <= k < v@.len() && v@[k] == l;
            }
        }
    }
}

/// Whether the plan holds a meshing job for this exact chunk content.
pub open spec fn plan_has_chunk(out: Seq<MeshJob>, c: Chunk) -> bool {
    exists|j: int| 0 <= j < out.len() && (#[trigger] out[j]).chunk.same_content(c)
}

/// Whether one direction of the re-cull duty is met: if the store holds that
/// neighbor column and the renderer has it loaded, the plan remeshes it.
pub open spec fn recull_dir(
    terr: DynTerr,
    loaded: Seq<ChunkLoc>,
    out: Seq<MeshJob>,
    nloc: ChunkLoc,
) -> bool {
    (terr.loaded(nloc) && loaded.contains(terr.chunk_at(nloc).chunk_loc)) ==> plan_has_chunk(
        out,
        terr.chunk_at(nloc),
    )
}

/// Whether the plan remeshes every loaded resident horizontal neighbor of a
/// location, so that boundary faces previously rendered against missing
/// terrain are re-culled against the newly arrived chunk.
pub open spec fn recull_covered(
    terr: DynTerr,
    loaded: Seq<ChunkLoc>,
    out: Seq<MeshJob>,
    loc: ChunkLoc,
) -> bool {
    &&& recull_dir(terr, loaded, out, offset_loc(loc, 1, 0))
    &&& recull_dir(terr, loaded, out, offset_loc(loc, -1, 0))
    &&& recull_dir(terr, loaded, out, offset_loc(loc, 0, 1))
    &&& recull_dir(terr, loaded, out, offset_loc(loc, 0, -1))
}

/// Whether a meshing job is sound against the store: its chunk has the
/// store's dimensions, and its neighbor information is exactly the store's
/// view around the chunk's location.
pub open spec fn job_ok(terr: DynTerr, job: MeshJob) -> bool {
    &&& job.chunk.wf()
    &&& job.chunk.side == terr.side
    &&& job.chunk.height == terr.height
    &&& job.neighbors.wf_for(job.chunk)
    &&& neighbors_match(terr, job.chunk.chunk_loc, job.neighbors)
}

/// Whether a meshing job is called for: it meshes a drained result, or it
/// remeshes a loaded resident chunk adjacent to a drained result.
pub open spec fn job_justified(
    terr: DynTerr,
    loaded: Seq<ChunkLoc>,
    results: Seq<Chunk>,
    job: MeshJob,
) -> bool {
    ||| exists|i: int| 0 <= i < results.len() && job.chunk.same_content(#[trigger] results[i])
    ||| {
        &&& terr.loaded(job.chunk.chunk_loc)
        &&& job.chunk.same_content(terr.chunk_at(job.chunk.chunk_loc))
        &&& loaded.contains(job.chunk.chunk_loc)
        &&& exists|i: int|
            0 <= i < results.len() && adjacent_col(
                (#[trigger] results[i]).chunk_loc,
                job.chunk.chunk_loc,
            )
    }
}

/// Whether two locations name horizontally adjacent columns.
pub open spec fn adjacent_col(a: ChunkLoc, b: ChunkLoc) -> bool {
    ||| b.same_column(offset_loc(a, 1, 0))
    ||| b.same_column(offset_loc(a, -1, 0))
    ||| b.same_column(offset_loc(a, 0, 1))
    ||| b.same_column(offset_loc(a, 0, -1))
}

/// Whether the result at one index was drained by this call.
pub open spec fn drained(results: Seq<Chunk>, upto: int, l: ChunkLoc) -> bool {
    exists|k: int| 0 <= k < upto && (#[trigger] results[k]).chunk_loc == l
}

/// Growing the plan keeps everything it already covers, and covers the new
/// job's chunk.
proof fn lemma_plan_push(out: Seq<MeshJob>, job: MeshJob)
    ensures
        forall|c: Chunk| plan_has_chunk(out, c) ==> #[trigger] plan_has_chunk(out.push(job), c),
        forall|c: Chunk|
            job.chunk.same_content(c) ==> #[trigger] plan_has_chunk(out.push(job), c),
{
    assert forall|c: Chunk| plan_has_chunk(out, c) implies #[trigger] plan_has_chunk(
        out.push(job),
        c,
    ) by {
        let j = choose|j: int| 0 <= j < out.len() && (#[trigger] out[j]).chunk.same_content(c);
        assert(out.push(job)[j].chunk.same_content(c));
    }
    assert forall|c: Chunk| job.chunk.same_content(c) implies #[trigger] plan_has_chunk(
        out.push(job),
        c,
    ) by {
        assert(out.push(job)[out.len() as int].chunk.same_content(c));
    }
}

/// Remeshes one horizontal neighbor of a freshly drained chunk, if the store
/// holds that column and the renderer has it loaded: pushes a job meshing
/// the resident neighbor against the store's current view around it.
fn recull_one(
    out: &mut Vec<MeshJob>,
    terr: &DynTerr,
    loaded: &Vec<ChunkLoc>,
    Ghost(results): Ghost<Seq<Chunk>>,
    pos: ChunkLoc,
    nloc: ChunkLoc,
)
    requires
        terr.wf(),
        adjacent_col(pos, nloc),
        exists|i: int| 0 <= i < results.len() && (#[trigger] results[i]).chunk_loc == pos,
    ensures
        final(out)@.len() >= old(out)@.len(),
        forall|j: int| 0 <= j < old(out)@.len() ==> final(out)@[j] == old(out)@[j],
        forall|j: int|
            old(out)@.len() <= j < final(out)@.len() ==> job_ok(*terr, #[trigger] final(out)@[j])
                && job_justified(*terr, loaded@, results, final(out)@[j]),
        recull_dir(*terr, loaded@, final(out)@, nloc),
        forall|c: Chunk| plan_has_chunk(old(out)@, c) ==> #[trigger] plan_has_chunk(final(out)@, c),
{
    match terr.find_chunk(nloc) {
        Some(nc) => {
            if locs_contain(loaded, nc.chunk_loc) {
                proof {
                    let i0 = terr.idx_of(nloc);
                    assert(0 <= i0 < terr.chunks@.len() && terr.chunks@[i0].chunk_loc.same_column(
                        nloc,
                    ));
                    assert(terr.chunks@[i0].wf() && loc_in_range(terr.chunks@[i0].chunk_loc));
                    let jloc = terr.chunks@[i0].chunk_loc;
                    terr.lemma_loaded_unique(jloc, i0);
                }
                let njob = MeshJob {
                    chunk: nc.clone(),
                    neighbors: neighbors_of(terr, nc.chunk_loc),
                };
                proof {
                    lemma_plan_push(out@, njob);
                }
                out.push(njob);
                proof {
                    let j = out@.len() - 1;
                    assert(out@[j] == njob);
                    assert(job_ok(*terr, njob)) by {
                        let jc = njob.chunk;
                        assert(jc.same_content(terr.chunk_at(nloc)));
                        assert(jc.chunk_loc == terr.chunk_at(nloc).chunk_loc);
                        assert(terr.chunk_at(jc.chunk_loc) == terr.chunk_at(nloc));
                    }
                    assert(job_justified(*terr, loaded@, results, njob)) by {
                        assert(terr.loaded(njob.chunk.chunk_loc));
                        assert(njob.chunk.chunk_loc.same_column(nloc));
                        let i = choose|i: int|
                            0 <= i < results.len() && (#[trigger] results[i]).chunk_loc == pos;
                        assert(adjacent_col(results[i].chunk_loc, njob.chunk.chunk_loc));
                    }
                    assert(plan_has_chunk(out@, terr.chunk_at(nloc))) by {
                        assert(out@[j].chunk.same_content(terr.chunk_at(nloc)));
                    }
                }
            }
        },
        None => {},
    }
}

/// Coordinates the chunk-generation pipeline: tracks which locations are
/// pending (dispatched but not yet drained) and how many workers serve the
/// queue, decides the nearest-first request schedule, and reconciles finished
/// chunks back into the renderer's world.
pub struct ChunkWorkerPool {
    pub pending: Vec<ChunkLoc>,
    pub worker_count: usize,
}

impl ChunkWorkerPool {
    /// The pending set holds no duplicates.
    pub open spec fn wf(self) -> bool {
        nodup(self.pending@)
    }

    /// Creates a pool state for the given number of worker threads, with
    /// nothing pending.
    pub fn new(worker_count: usize) -> (r: Self)
        ensures
            r.wf(),
            r.worker_count == worker_count,
            r.pending@.len() == 0,
    {
        ChunkWorkerPool { pending: Vec::new(), worker_count }
    }

    /// Walks the streaming area in rings of increasing Chebyshev distance
    /// from the origin and collects, in that order, every location that is
    /// neither loaded (per the renderer's loaded list) nor already pending;
    /// each collected location is marked pending. The returned sequence is
    /// what must be sent to the work queue, nearest rings first.
    pub fn queue_missing_chunks(&mut self, loaded: &Vec<ChunkLoc>, radius: usize) -> (out: Vec<
        ChunkLoc,
    >)
        requires
            old(self).wf(),
            radius < 0x4000_0000,
        ensures
            final(self).wf(),
            final(self).worker_count == old(self).worker_count,
            final(self).pending@ == old(self).pending@ + out@,
            forall|k: int|
                0 <= k < out@.len() ==> candidate(#[trigger] out@[k], radius as int)
                    && !loaded@.contains(out@[k]) && !old(self).pending@.contains(out@[k]),
            forall|i: int, j: int|
                0 <= i <= j < out@.len() ==> out@[i].chebyshev() <= out@[j].chebyshev(),
            forall|loc: ChunkLoc|
                #[trigger] candidate(loc, radius as int) && !loaded@.contains(loc) && !old(self).pending@.contains(loc) ==> out@.contains(loc),
            forall|loc: ChunkLoc|
                #[trigger] candidate(loc, radius as int) && !loaded@.contains(loc) ==> final(self).pending@.contains(loc),
            nodup(out@),
    {
        let ghost base = old(self).pending@;
        let mut out: Vec<ChunkLoc> = Vec::new();
        let r = radius as i32;
        for d in 0..r
            invariant
                r == radius,
                r < 0x4000_0000,
                self.worker_count == old(self).worker_count,
                self.wf(),
                self.pending@ == base + out@,
                forall|k: int|
                    0 <= k < out@.len() ==> candidate(#[trigger] out@[k], radius as int)
                        && !loaded@.contains(out@[k]) && !base.contains(out@[k]),
                forall|k: int| 0 <= k < out@.len() ==> (#[trigger] out@[k]).chebyshev() < d,
                forall|i: int, j: int|
                    0 <= i <= j < out@.len() ==> out@[i].chebyshev() <= out@[j].chebyshev(),
                forall|loc: ChunkLoc|
                    loc.loc.y == 0 && loc.chebyshev() < d ==> #[trigger] handled(
                        loaded@,
                        base,
                        out@,
                        loc,
                    ),
        {
            let width = 2 * d + 1;
            for xi in 0..width
                invariant
                    r == radius,
                    width == 2 * d + 1,
                    0 <= d < r,
                    self.worker_count == old(self).worker_count,
                    self.wf(),
                    self.pending@ == base + out@,
                    forall|k: int|
                        0 <= k < out@.len() ==> candidate(#[trigger] out@[k], radius as int)
                            && !loaded@.contains(out@[k]) && !base.contains(out@[k]),
                    forall|k: int| 0 <= k < out@.len() ==> (#[trigger] out@[k]).chebyshev() <= d,
                    forall|i: int, j: int|
                        0 <= i <= j < out@.len() ==> out@[i].chebyshev() <= out@[j].chebyshev(),
                    forall|loc: ChunkLoc|
                        loc.loc.y == 0 && loc.chebyshev() < d ==> #[trigger] handled(
                            loaded@,
                            base,
                            out@,
                            loc,
                        ),
                    forall|loc: ChunkLoc|
                        loc.loc.y == 0 && loc.chebyshev() == d && loc.loc.x < xi - d
                            ==> #[trigger] handled(loaded@, base, out@, loc),
            {
                let x = xi - d;
                for zi in 0..width
                    invariant
                        r == radius,
                        width == 2 * d + 1,
                        0 <= d < r,
                        x == xi - d,
                        0 <= xi < width,
                        self.worker_count == old(self).worker_count,
                        self.wf(),
                        self.pending@ == base + out@,
                        forall|k: int|
                            0 <= k < out@.len() ==> candidate(#[trigger] out@[k], radius as int)
                                && !loaded@.contains(out@[k]) && !base.contains(out@[k]),
                        forall|k: int|
                            0 <= k < out@.len() ==> (#[trigger] out@[k]).chebyshev() <= d,
                        forall|i: int, j: int|
                            0 <= i <= j < out@.len() ==> out@[i].chebyshev() <= out@[j].chebyshev(),
                        forall|loc: ChunkLoc|
                            loc.loc.y == 0 && loc.chebyshev() < d ==> #[trigger] handled(
                                loaded@,
                                base,
                                out@,
                                loc,
                            ),
                        forall|loc: ChunkLoc|
                            loc.loc.y == 0 && loc.chebyshev() == d && loc.loc.x < x
                                ==> #[trigger] handled(loaded@, base, out@, loc),
                        forall|loc: ChunkLoc|
                            loc.loc.y == 0 && loc.chebyshev() == d && loc.loc.x == x && loc.loc.z
                                < zi - d ==> #[trigger] handled(loaded@, base, out@, loc),
                {
                    let z = zi - d;
                    if x == -d || x == d || z == -d || z == d {
                        let pos = ChunkLoc { loc: IntVec3 { x, y: 0, z } };
                        proof {
                            assert(pos.chebyshev() == d);
                        }
                        if !(locs_contain(loaded, pos) || locs_contain(&self.pending, pos)) {
                            proof {
                                assert(!base.contains(pos) && !out@.contains(pos)) by {
                                    if base.contains(pos) {
                                        let k = choose|k: int|
                                            0 <= k < base.len() && base[k] == pos;
                                        assert(self.pending@[k] == pos);
                                    }
                                    if out@.contains(pos) {
                                        let k = choose|k: int|
                                            0 <= k < out@.len() && out@[k] == pos;
                                        assert(self.pending@[base.len() + k] == pos);
                                    }
                                }
                                lemma_handled_push(loaded@, base, out@, pos);
                            }
                            let ghost pb = self.pending@;
                            self.pending.push(pos);
                            out.push(pos);
                            proof {
                                lemma_nodup_push(pb, pos);
                                assert(self.pending@ =~= base + out@);
                            }
                        } else {
                            proof {
                                if loaded@.contains(pos) {
                                } else {
                                    assert(self.pending@.contains(pos));
                                    let k = choose|k: int|
                                        0 <= k < self.pending@.len() && self.pending@[k] == pos;
                                    if k < base.len() {
                                        assert(base[k] == pos);
                                    } else {
                                        assert(out@[k - base.len()] == pos);
                                    }
                                }
                                assert(handled(loaded@, base, out@, pos));
                            }
                        }
                    }
                    proof {
                        assert forall|loc: ChunkLoc|
                            loc.loc.y == 0 && loc.chebyshev() == d && loc.loc.x == x && loc.loc.z
                                < zi + 1 - d implies #[trigger] handled(
                            loaded@,
                            base,
                            out@,
                            loc,
                        ) by {
                            if loc.loc.z == z {
                                assert(loc.loc.x == x && loc.loc.z == z && loc.loc.y == 0);
                                if x == -d || x == d || z == -d || z == d {
                                    assert(loc == (ChunkLoc {
                                        loc: IntVec3 { x: x as i32, y: 0, z: z as i32 },
                                    }));
                                } else {
                                    assert(loc.chebyshev() < d);
                                }
                            }
                        }
                    }
                }
                proof {
                    assert forall|loc: ChunkLoc|
                        loc.loc.y == 0 && loc.chebyshev() == d && loc.loc.x < xi + 1 - d implies #[trigger] handled(
                        loaded@,
                        base,
                        out@,
                        loc,
                    ) by {
                        if loc.loc.x == x {
                            assert(loc.loc.z <= d);
                            assert(loc.loc.z < 2 * d + 1 - d);
                        }
                    }
                }
            }
            proof {
                assert forall|loc: ChunkLoc| loc.loc.y == 0 && loc.chebyshev() < d + 1 implies #[trigger] handled(
                    loaded@,
                    base,
                    out@,
                    loc,
                ) by {
                    if loc.chebyshev() == d {
                        assert(loc.loc.x <= d);
                        assert(loc.loc.x < 2 * d + 1 - d);
                    }
                }
            }
        }
        proof {
            assert forall|loc: ChunkLoc|
                #[trigger] candidate(loc, radius as int) && !loaded@.contains(loc)
                    && !base.contains(loc) implies out@.contains(loc) by {
                assert(handled(loaded@, base, out@, loc));
            }
            assert forall|loc: ChunkLoc|
                #[trigger] candidate(loc, radius as int) && !loaded@.contains(loc) implies self.pending@.contains(
                loc,
            ) by {
                if base.contains(loc) {
                    let k = choose|k: int| 0 <= k < base.len() && base[k] == loc;
                    assert(self.pending@[k] == loc);
                } else {
                    assert(out@.contains(loc));
                    let k = choose|k: int| 0 <= k < out@.len() && out@[k] == loc;
                    assert(self.pending@[base.len() + k] == loc);
                }
            }
            assert forall|i: int, j: int| 0 <= i < j < out@.len() implies out@[i] != out@[j] by {
                assert(self.pending@[base.len() + i] == out@[i]);
                assert(self.pending@[base.len() + j] == out@[j]);
            }
        }
        out
    }

    /// Reconciles drained worker results into the live world: clears each
    /// result's pending mark, plans a meshing job for the new chunk against
    /// its current resident neighbors, and plans a remesh of every loaded
    /// resident horizontal neighbor so its boundary faces re-cull against
    /// the newly available chunk. The caller drains results without blocking
    /// and hands them in; no result is dropped from the plan.
    pub fn apply_ready_chunks(
        &mut self,
        results: &Vec<Chunk>,
        terr: &DynTerr,
        loaded: &Vec<ChunkLoc>,
    ) -> (out: Vec<MeshJob>)
        requires
            old(self).wf(),
            terr.wf(),
            forall|i: int|
                0 <= i < results@.len() ==> {
                    &&& (#[trigger] results@[i]).wf()
                    &&& results@[i].side == terr.side
                    &&& results@[i].height == terr.height
                    &&& loc_in_range(results@[i].chunk_loc)
                },
        ensures
            final(self).wf(),
            final(self).worker_count == old(self).worker_count,
            forall|l: ChunkLoc| #[trigger]
                final(self).pending@.contains(l) <==> (old(self).pending@.contains(l) && !drained(
                    results@,
                    results@.len() as int,
                    l,
                )),
            forall|j: int|
                0 <= j < out@.len() ==> job_ok(*terr, #[trigger] out@[j]) && job_justified(
                    *terr,
                    loaded@,
                    results@,
                    out@[j],
                ),
            forall|i: int| 0 <= i < results@.len() ==> plan_has_chunk(out@, #[trigger] results@[i]),
            forall|i: int|
                0 <= i < results@.len() ==> recull_covered(
                    *terr,
                    loaded@,
                    out@,
                    (#[trigger] results@[i]).chunk_loc,
                ),
    {
        let mut out: Vec<MeshJob> = Vec::new();
        let n = results.len();
        for i in 0..n
            invariant
                n == results@.len(),
                self.worker_count == old(self).worker_count,
                self.wf(),
                terr.wf(),
                forall|k: int|
                    0 <= k < results@.len() ==> {
                        &&& (#[trigger] results@[k]).wf()
                        &&& results@[k].side == terr.side
                        &&& results@[k].height == terr.height
                        &&& loc_in_range(results@[k].chunk_loc)
                    },
                forall|l: ChunkLoc| #[trigger]
                    self.pending@.contains(l) <==> (old(self).pending@.contains(l) && !drained(
                        results@,
                        i as int,
                        l,
                    )),
                forall|j: int|
                    0 <= j < out@.len() ==> job_ok(*terr, #[trigger] out@[j]) && job_justified(
                        *terr,
                        loaded@,
                        results@,
                        out@[j],
                    ),
                forall|k: int| 0 <= k < i ==> plan_has_chunk(out@, #[trigger] results@[k]),
                forall|k: int|
                    0 <= k < i ==> recull_covered(
                        *terr,
                        loaded@,
                        out@,
                        (#[trigger] results@[k]).chunk_loc,
                    ),
        {
            let chunk = &results[i];
            let pos = chunk.chunk_loc;
            let ghost pending_before = self.pending@;
            remove_loc(&mut self.pending, pos);
            proof {
                assert forall|l: ChunkLoc| #[trigger]
                    self.pending@.contains(l) <==> (old(self).pending@.contains(l) && !drained(
                        results@,
                        i + 1,
                        l,
                    )) by {
                    assert(self.pending@.contains(l) <==> (pending_before.contains(l) && l
                        != pos));
                    if drained(results@, i + 1, l) && l != pos {
                        let k = choose|k: int|
                            0 <= k < i + 1 && (#[trigger] results@[k]).chunk_loc == l;
                        assert(k < i);
                        assert(drained(results@, i as int, l));
                    }
                    if drained(results@, i as int, l) {
                        let k = choose|k: int|
                            0 <= k < i && (#[trigger] results@[k]).chunk_loc == l;
                        assert(drained(results@, i + 1, l));
                    }
                    if l == pos {
                        assert(results@[i as int].chunk_loc == l);
                        assert(drained(results@, i + 1, l));
                    }
                }
            }
            let nbrs = neighbors_of(terr, pos);
            let job = MeshJob { chunk: chunk.clone(), neighbors: nbrs };
            proof {
                lemma_plan_push(out@, job);
            }
            out.push(job);
            proof {
                let j = out@.len() - 1;
                assert(out@[j] == job);
                assert(job_ok(*terr, job));
                assert(job_justified(*terr, loaded@, results@, job)) by {
                    assert(job.chunk.same_content(results@[i as int]));
                }
                assert(plan_has_chunk(out@, results@[i as int])) by {
                    assert(out@[j].chunk.same_content(results@[i as int]));
                }
            }
            recull_one(
                &mut out,
                terr,
                loaded,
                Ghost(results@),
                pos,
                ChunkLoc { loc: IntVec3 { x: pos.loc.x + 1, y: 0, z: pos.loc.z } },
            );
            recull_one(
                &mut out,
                terr,
                loaded,
                Ghost(results@),
                pos,
                ChunkLoc { loc: IntVec3 { x: pos.loc.x - 1, y: 0, z: pos.loc.z } },
            );
            recull_one(
                &mut out,
                terr,
                loaded,
                Ghost(results@),
                pos,
                ChunkLoc { loc: IntVec3 { x: pos.loc.x, y: 0, z: pos.loc.z + 1 } },
            );
            recull_one(
                &mut out,
                terr,
                loaded,
                Ghost(results@),
                pos,
                ChunkLoc { loc: IntVec3 { x: pos.loc.x, y: 0, z: pos.loc.z - 1 } },
            );
            proof {
                assert(recull_covered(*terr, loaded@, out@, pos));
                assert(plan_has_chunk(out@, results@[i as int]));
                assert forall|k: int| 0 <= k < i + 1 implies recull_covered(
                    *terr,
                    loaded@,
                    out@,
                    (#[trigger] results@[k]).chunk_loc,
                ) by {}
            }
        }
        out
    }

    /// One worker-loop step: a shutdown sentinel ends the worker with no
    /// result and no change to the store; a generate request materializes the
    /// chunk through the store (from cache, or freshly from the given column
    /// heights) and yields it for publication.
    pub fn worker_step(terr: &mut DynTerr, job: &WorkItem, heights: &Vec<Vec<usize>>) -> (r:
        Option<Chunk>)
        requires
            old(terr).wf(),
            *job matches WorkItem::Generate(loc) ==> loc_in_range(loc),
            heights@.len() == old(terr).side,
            forall|x: int| 0 <= x < old(terr).side ==> (#[trigger] heights@[x])@.len() == old(
                terr,
            ).side,
        ensures
            final(terr).wf(),
            final(terr).side == old(terr).side,
            final(terr).height == old(terr).height,
            *job is Stop ==> r is None && *final(terr) == *old(terr),
            *job matches WorkItem::Generate(loc) ==> {
                &&& (r matches Some(c) ==> c.wf() && c.side == old(terr).side && c.height == old(
                    terr,
                ).height && c.chunk_loc.same_column(loc))
                &&& r is Some
                &&& (old(terr).loaded(loc) ==> *final(terr) == *old(terr) && (r matches Some(c)
                    ==> c.same_content(old(terr).chunk_at(loc))))
                &&& (!old(terr).loaded(loc) ==> (r matches Some(c) ==> c.generated_from(
                    loc,
                    old(terr).side as int,
                    old(terr).height as int,
                    crate::terrain::heights_view(*heights),
                )) && final(terr).loaded(loc))
            },
    {
        match job {
            WorkItem::Stop => None,
            WorkItem::Generate(loc) => {
                match terr.get_chunk(*loc, heights) {
                    Ok(c) => Some(c),
                    Err(_) => None,
                }
            },
        }
    }

    /// Produces the shutdown sentinels: exactly one per worker thread, enough
    /// to unblock and terminate every worker exactly once. The caller sends
    /// them and then joins the threads.
    pub fn shutdown(self) -> (r: Vec<WorkItem>)
        ensures
            r@.len() == self.worker_count,
            forall|i: int| 0 <= i < r@.len() ==> #[trigger] r@[i] is Stop,
    {
        let mut msgs: Vec<WorkItem> = Vec::new();
        let count = self.worker_count;
        for i in 0..count
            invariant
                msgs@.len() == i,
                forall|k: int| 0 <= k < i ==> #[trigger] msgs@[k] is Stop,
        {
            msgs.push(WorkItem::Stop);
        }
        msgs
    }
}

/// At-most-one in-flight: a second schedule pass before any result drains
/// enqueues nothing. After a first pass every candidate location is loaded or
/// pending, and a pass only enqueues candidates that are neither, so its
/// output is empty.
pub proof fn lemma_requeue_adds_nothing(
    pending_after: Seq<ChunkLoc>,
    loaded: Seq<ChunkLoc>,
    out2: Seq<ChunkLoc>,
    radius: int,
)
    requires
        forall|loc: ChunkLoc|
            #[trigger] candidate(loc, radius) && !loaded.contains(loc) ==> pending_after.contains(
                loc,
            ),
        forall|k: int|
            0 <= k < out2.len() ==> candidate(#[trigger] out2[k], radius) && !loaded.contains(
                out2[k],
            ) && !pending_after.contains(out2[k]),
    ensures
        out2.len() == 0,
{
    if out2.len() > 0 {
        let l = out2[0];
        assert(candidate(l, radius) && !loaded.contains(l) && !pending_after.contains(l));
        assert(pending_after.contains(l));
    }
}

/// A drained location is re-dispatched only after it leaves the renderer's
/// loaded set: while it is loaded, no schedule pass enqueues it again.
pub proof fn lemma_no_redispatch_while_loaded(
    loaded: Seq<ChunkLoc>,
    out: Seq<ChunkLoc>,
    l: ChunkLoc,
)
    requires
        forall|k: int| 0 <= k < out.len() ==> !loaded.contains(#[trigger] out[k]),
        loaded.contains(l),
    ensures
        !out.contains(l),
{
    if out.contains(l) {
        let k = choose|k: int| 0 <= k < out.len() && out[k] == l;
    }
}

} // verus!
