//! Hidden-surface-removal meshing: turns a chunk (plus its optional four
//! horizontal neighbors) into flat vertex/normal/texture-coordinate buffers,
//! culling faces that abut solid cells. Coordinates are chunk-relative block
//! indices, so every buffer entry is a small integer; the rendering layer
//! scales them to world units.

use vstd::prelude::*;

use crate::terrain::Chunk;

verus! {

/// The four optional horizontally adjacent chunks (+x, -x, +z, -z) consulted
/// when culling chunk-boundary faces. An absent neighbor means the face is
/// rendered conservatively.
pub struct ChunkNeighbors {
    pub pos_x: Option<Chunk>,
    pub neg_x: Option<Chunk>,
    pub pos_z: Option<Chunk>,
    pub neg_z: Option<Chunk>,
}

impl ChunkNeighbors {
    /// Every supplied neighbor is well formed and has the dimensions of the
    /// chunk being meshed.
    pub open spec fn wf_for(self, c: Chunk) -> bool {
        &&& (self.pos_x matches Some(n) ==> n.wf() && n.same_dims(c))
        &&& (self.neg_x matches Some(n) ==> n.wf() && n.same_dims(c))
        &&& (self.pos_z matches Some(n) ==> n.wf() && n.same_dims(c))
        &&& (self.neg_z matches Some(n) ==> n.wf() && n.same_dims(c))
    }

    /// No neighbor information at all.
    pub fn none() -> (r: Self)
        ensures
            r.pos_x is None && r.neg_x is None && r.pos_z is None && r.neg_z is None,
    {
        ChunkNeighbors { pos_x: None, neg_x: None, pos_z: None, neg_z: None }
    }
}

/// Whether (dx, dy, dz) is one of the six axis-aligned unit directions.
pub open spec fn unit_dir(dx: int, dy: int, dz: int) -> bool {
    ||| (dx == 0 && dy == 0 && (dz == 1 || dz == -1))
    ||| (dx == 0 && (dy == 1 || dy == -1) && dz == 0)
    ||| ((dx == 1 || dx == -1) && dy == 0 && dz == 0)
}

/// Whether the face of the cell at (x, y, z) facing (dx, dy, dz) is visible:
/// a face is visible when the cell it faces is air, lies beyond the world's
/// floor or ceiling, or lies in a horizontal neighbor that is absent. A face
/// toward a present neighbor chunk consults the wrapped cell on that
/// neighbor's far side.
pub open spec fn face_visible(
    c: Chunk,
    n: ChunkNeighbors,
    x: int,
    y: int,
    z: int,
    dx: int,
    dy: int,
    dz: int,
) -> bool {
    let nx = x + dx;
    let ny = y + dy;
    let nz = z + dz;
    if ny < 0 || ny >= c.height {
        true
    } else if nx < 0 {
        match n.neg_x {
            Option::None => true,
            Option::Some(nb) => !nb.solid_at(c.side - 1, ny, nz),
        }
    } else if nx >= c.side {
        match n.pos_x {
            Option::None => true,
            Option::Some(nb) => !nb.solid_at(0, ny, nz),
        }
    } else if nz < 0 {
        match n.neg_z {
            Option::None => true,
            Option::Some(nb) => !nb.solid_at(nx, ny, c.side - 1),
        }
    } else if nz >= c.side {
        match n.pos_z {
            Option::None => true,
            Option::Some(nb) => !nb.solid_at(nx, ny, 0),
        }
    } else {
        !c.solid_at(nx, ny, nz)
    }
}

/// Checks whether a face should be rendered: is the cell it faces exposed to
/// air or to missing terrain?
pub fn should_render_face(
    chunk: &Chunk,
    neighbors: &ChunkNeighbors,
    x: usize,
    y: usize,
    z: usize,
    dx: i32,
    dy: i32,
    dz: i32,
) -> (r: bool)
    requires
        chunk.wf(),
        neighbors.wf_for(*chunk),
        chunk.in_bounds(x as int, y as int, z as int),
        chunk.side < 0x4000_0000,
        chunk.height < 0x4000_0000,
        unit_dir(dx as int, dy as int, dz as int),
    ensures
        r == face_visible(*chunk, *neighbors, x as int, y as int, z as int, dx as int, dy as int, dz as int),
{
    let nx = x as i64 + dx as i64;
    let ny = y as i64 + dy as i64;
    let nz = z as i64 + dz as i64;
    let side = chunk.side as i64;
    let height = chunk.height as i64;

    if ny < 0 || ny >= height {
        true
    } else if nx < 0 {
        match &neighbors.neg_x {
            Option::None => true,
            Option::Some(nb) => nb.block_at(nb.side - 1, ny as usize, nz as usize) == 0,
        }
    } else if nx >= side {
        match &neighbors.pos_x {
            Option::None => true,
            Option::Some(nb) => nb.block_at(0, ny as usize, nz as usize) == 0,
        }
    } else if nz < 0 {
        match &neighbors.neg_z {
            Option::None => true,
            Option::Some(nb) => nb.block_at(nx as usize, ny as usize, nb.side - 1) == 0,
        }
    } else if nz >= side {
        match &neighbors.pos_z {
            Option::None => true,
            Option::Some(nb) => nb.block_at(nx as usize, ny as usize, 0) == 0,
        }
    } else {
        chunk.blocks[nx as usize][ny as usize][nz as usize].block_id == 0
    }
}

/// Three parallel geometry buffers: position triples, normal triples and
/// texture-coordinate pairs, six vertices (two triangles) per visible face.
pub struct MeshBuffers {
    pub vertices: Vec<i32>,
    pub normals: Vec<i32>,
    pub texcoords: Vec<i32>,
}

/// The mathematical value of a set of geometry buffers.
pub struct MeshView {
    pub vertices: Seq<i32>,
    pub normals: Seq<i32>,
    pub texcoords: Seq<i32>,
}

/// The empty mesh.
pub open spec fn mv_empty() -> MeshView {
    MeshView { vertices: Seq::empty(), normals: Seq::empty(), texcoords: Seq::empty() }
}

/// Concatenation of two meshes, buffer by buffer.
pub open spec fn mv_add(a: MeshView, b: MeshView) -> MeshView {
    MeshView {
        vertices: a.vertices + b.vertices,
        normals: a.normals + b.normals,
        texcoords: a.texcoords + b.texcoords,
    }
}

/// The texture coordinates of one quad face: a unit square, two triangles.
pub open spec fn face_texcoords() -> Seq<i32> {
    seq![0, 1, 1, 1, 1, 0, 0, 1, 1, 0, 0, 0]
}

/// The normals of one quad face: the face direction, once per vertex.
pub open spec fn face_normals(dx: i32, dy: i32, dz: i32) -> Seq<i32> {
    seq![
        dx, dy, dz, dx, dy, dz, dx, dy, dz, dx, dy, dz, dx, dy, dz, dx, dy, dz,
    ]
}

/// Vertex positions of a front-facing quad (+z) of the cell at (x, y, z).
pub open spec fn front_vertices(x: i32, y: i32, z: i32) -> Seq<i32> {
    let x1 = (x + 1) as i32;
    let y1 = (y + 1) as i32;
    let z1 = (z + 1) as i32;
    seq![x, y, z1, x1, y, z1, x1, y1, z1, x, y, z1, x1, y1, z1, x, y1, z1]
}

/// Vertex positions of a back-facing quad (-z) of the cell at (x, y, z).
pub open spec fn back_vertices(x: i32, y: i32, z: i32) -> Seq<i32> {
    let x1 = (x + 1) as i32;
    let y1 = (y + 1) as i32;
    seq![x1, y, z, x, y, z, x, y1, z, x1, y, z, x, y1, z, x1, y1, z]
}

/// Vertex positions of a top-facing quad (+y) of the cell at (x, y, z).
pub open spec fn top_vertices(x: i32, y: i32, z: i32) -> Seq<i32> {
    let x1 = (x + 1) as i32;
    let y1 = (y + 1) as i32;
    let z1 = (z + 1) as i32;
    seq![x, y1, z, x, y1, z1, x1, y1, z1, x, y1, z, x1, y1, z1, x1, y1, z]
}

/// Vertex positions of a bottom-facing quad (-y) of the cell at (x, y, z).
pub open spec fn bottom_vertices(x: i32, y: i32, z: i32) -> Seq<i32> {
    let x1 = (x + 1) as i32;
    let z1 = (z + 1) as i32;
    seq![x, y, z1, x, y, z, x1, y, z, x, y, z1, x1, y, z, x1, y, z1]
}

/// Vertex positions of a right-facing quad (+x) of the cell at (x, y, z).
pub open spec fn right_vertices(x: i32, y: i32, z: i32) -> Seq<i32> {
    let x1 = (x + 1) as i32;
    let y1 = (y + 1) as i32;
    let z1 = (z + 1) as i32;
    seq![x1, y, z1, x1, y, z, x1, y1, z, x1, y, z1, x1, y1, z, x1, y1, z1]
}

/// Vertex positions of a left-facing quad (-x) of the cell at (x, y, z).
pub open spec fn left_vertices(x: i32, y: i32, z: i32) -> Seq<i32> {
    let y1 = (y + 1) as i32;
    let z1 = (z + 1) as i32;
    seq![x, y, z, x, y, z1, x, y1, z1, x, y, z, x, y1, z1, x, y1, z]
}

/// The mesh of one quad face.
pub open spec fn face_view(vertices: Seq<i32>, dx: i32, dy: i32, dz: i32) -> MeshView {
    MeshView { vertices, normals: face_normals(dx, dy, dz), texcoords: face_texcoords() }
}

/// The geometry one cell contributes: nothing for air, otherwise one quad per
/// visible face, in the fixed order front, back, top, bottom, right, left.
pub open spec fn cell_view(c: Chunk, n: ChunkNeighbors, x: int, y: int, z: int) -> MeshView {
    if !c.solid_at(x, y, z) {
        mv_empty()
    } else {
        let xi = x as i32;
        let yi = y as i32;
        let zi = z as i32;
        let m0 = if face_visible(c, n, x, y, z, 0, 0, 1) {
            face_view(front_vertices(xi, yi, zi), 0, 0, 1)
        } else {
            mv_empty()
        };
        let m1 = if face_visible(c, n, x, y, z, 0, 0, -1) {
            mv_add(m0, face_view(back_vertices(xi, yi, zi), 0, 0, -1i32))
        } else {
            m0
        };
        let m2 = if face_visible(c, n, x, y, z, 0, 1, 0) {
            mv_add(m1, face_view(top_vertices(xi, yi, zi), 0, 1, 0))
        } else {
            m1
        };
        let m3 = if face_visible(c, n, x, y, z, 0, -1, 0) {
            mv_add(m2, face_view(bottom_vertices(xi, yi, zi), 0, -1i32, 0))
        } else {
            m2
        };
        let m4 = if face_visible(c, n, x, y, z, 1, 0, 0) {
            mv_add(m3, face_view(right_vertices(xi, yi, zi), 1, 0, 0))
        } else {
            m3
        };
        let m5 = if face_visible(c, n, x, y, z, -1, 0, 0) {
            mv_add(m4, face_view(left_vertices(xi, yi, zi), -1i32, 0, 0))
        } else {
            m4
        };
        m5
    }
}

/// The geometry of the cells (x, y, 0) through (x, y, zc - 1), in scan order.
pub open spec fn row_view(c: Chunk, n: ChunkNeighbors, x: int, y: int, zc: int) -> MeshView
    decreases zc,
{
    if zc <= 0 {
        mv_empty()
    } else {
        mv_add(row_view(c, n, x, y, zc - 1), cell_view(c, n, x, y, zc - 1))
    }
}

/// The geometry of the rows (x, 0) through (x, yc - 1), in scan order.
pub open spec fn plane_view(c: Chunk, n: ChunkNeighbors, x: int, yc: int) -> MeshView
    decreases yc,
{
    if yc <= 0 {
        mv_empty()
    } else {
        mv_add(plane_view(c, n, x, yc - 1), row_view(c, n, x, yc - 1, c.side as int))
    }
}

/// The geometry of the planes 0 through xc - 1, in scan order.
pub open spec fn mesh_view(c: Chunk, n: ChunkNeighbors, xc: int) -> MeshView
    decreases xc,
{
    if xc <= 0 {
        mv_empty()
    } else {
        mv_add(mesh_view(c, n, xc - 1), plane_view(c, n, xc - 1, c.height as int))
    }
}

/// The whole mesh of a chunk against its neighbors.
pub open spec fn chunk_mesh_view(c: Chunk, n: ChunkNeighbors) -> MeshView {
    mesh_view(c, n, c.side as int)
}

/// Adds vertices, normals, and uvs for a front-facing quad (+z).
fn add_front_face(
    vertices: &mut Vec<i32>,
    normals: &mut Vec<i32>,
    texcoords: &mut Vec<i32>,
    x: i32,
    y: i32,
    z: i32,
)
    requires
        0 <= x < i32::MAX,
        0 <= y < i32::MAX,
        0 <= z < i32::MAX,
    ensures
        final(vertices)@ == old(vertices)@ + front_vertices(x, y, z),
        final(normals)@ == old(normals)@ + face_normals(0, 0, 1),
        final(texcoords)@ == old(texcoords)@ + face_texcoords(),
{
    let x1 = x + 1;
    let y1 = y + 1;
    let z1 = z + 1;
    push_quad_vertices(vertices, [x, y, z1, x1, y, z1, x1, y1, z1, x, y, z1, x1, y1, z1, x, y1, z1]);
    push_quad_normals(normals, 0, 0, 1);
    push_quad_texcoords(texcoords);
    proof {
        assert(final(vertices)@ =~= old(vertices)@ + front_vertices(x, y, z));
    }
}

/// Adds vertices, normals, and uvs for a back-facing quad (-z).
fn add_back_face(
    vertices: &mut Vec<i32>,
    normals: &mut Vec<i32>,
    texcoords: &mut Vec<i32>,
    x: i32,
    y: i32,
    z: i32,
)
    requires
        0 <= x < i32::MAX,
        0 <= y < i32::MAX,
        0 <= z < i32::MAX,
    ensures
        final(vertices)@ == old(vertices)@ + back_vertices(x, y, z),
        final(normals)@ == old(normals)@ + face_normals(0, 0, -1i32),
        final(texcoords)@ == old(texcoords)@ + face_texcoords(),
{
    let x1 = x + 1;
    let y1 = y + 1;
    push_quad_vertices(vertices, [x1, y, z, x, y, z, x, y1, z, x1, y, z, x, y1, z, x1, y1, z]);
    push_quad_normals(normals, 0, 0, -1);
    push_quad_texcoords(texcoords);
    proof {
        assert(final(vertices)@ =~= old(vertices)@ + back_vertices(x, y, z));
    }
}

/// Adds vertices, normals, and uvs for a top-facing quad (+y).
fn add_top_face(
    vertices: &mut Vec<i32>,
    normals: &mut Vec<i32>,
    texcoords: &mut Vec<i32>,
    x: i32,
    y: i32,
    z: i32,
)
    requires
        0 <= x < i32::MAX,
        0 <= y < i32::MAX,
        0 <= z < i32::MAX,
    ensures
        final(vertices)@ == old(vertices)@ + top_vertices(x, y, z),
        final(normals)@ == old(normals)@ + face_normals(0, 1, 0),
        final(texcoords)@ == old(texcoords)@ + face_texcoords(),
{
    let x1 = x + 1;
    let y1 = y + 1;
    let z1 = z + 1;
    push_quad_vertices(vertices, [x, y1, z, x, y1, z1, x1, y1, z1, x, y1, z, x1, y1, z1, x1, y1, z]);
    push_quad_normals(normals, 0, 1, 0);
    push_quad_texcoords(texcoords);
    proof {
        assert(final(vertices)@ =~= old(vertices)@ + top_vertices(x, y, z));
    }
}

/// Adds vertices, normals, and uvs for a bottom-facing quad (-y).
fn add_bottom_face(
    vertices: &mut Vec<i32>,
    normals: &mut Vec<i32>,
    texcoords: &mut Vec<i32>,
    x: i32,
    y: i32,
    z: i32,
)
    requires
        0 <= x < i32::MAX,
        0 <= y < i32::MAX,
        0 <= z < i32::MAX,
    ensures
        final(vertices)@ == old(vertices)@ + bottom_vertices(x, y, z),
        final(normals)@ == old(normals)@ + face_normals(0, -1i32, 0),
        final(texcoords)@ == old(texcoords)@ + face_texcoords(),
{
    let x1 = x + 1;
    let z1 = z + 1;
    push_quad_vertices(vertices, [x, y, z1, x, y, z, x1, y, z, x, y, z1, x1, y, z, x1, y, z1]);
    push_quad_normals(normals, 0, -1, 0);
    push_quad_texcoords(texcoords);
    proof {
        assert(final(vertices)@ =~= old(vertices)@ + bottom_vertices(x, y, z));
    }
}

/// Adds vertices, normals, and uvs for a right-facing quad (+x).
fn add_right_face(
    vertices: &mut Vec<i32>,
    normals: &mut Vec<i32>,
    texcoords: &mut Vec<i32>,
    x: i32,
    y: i32,
    z: i32,
)
    requires
        0 <= x < i32::MAX,
        0 <= y < i32::MAX,
        0 <= z < i32::MAX,
    ensures
        final(vertices)@ == old(vertices)@ + right_vertices(x, y, z),
        final(normals)@ == old(normals)@ + face_normals(1, 0, 0),
        final(texcoords)@ == old(texcoords)@ + face_texcoords(),
{
    let x1 = x + 1;
    let y1 = y + 1;
    let z1 = z + 1;
    push_quad_vertices(vertices, [x1, y, z1, x1, y, z, x1, y1, z, x1, y, z1, x1, y1, z, x1, y1, z1]);
    push_quad_normals(normals, 1, 0, 0);
    push_quad_texcoords(texcoords);
    proof {
        assert(final(vertices)@ =~= old(vertices)@ + right_vertices(x, y, z));
    }
}

/// Adds vertices, normals, and uvs for a left-facing quad (-x).
fn add_left_face(
    vertices: &mut Vec<i32>,
    normals: &mut Vec<i32>,
    texcoords: &mut Vec<i32>,
    x: i32,
    y: i32,
    z: i32,
)
    requires
        0 <= x < i32::MAX,
        0 <= y < i32::MAX,
        0 <= z < i32::MAX,
    ensures
        final(vertices)@ == old(vertices)@ + left_vertices(x, y, z),
        final(normals)@ == old(normals)@ + face_normals(-1i32, 0, 0),
        final(texcoords)@ == old(texcoords)@ + face_texcoords(),
{
    let y1 = y + 1;
    let z1 = z + 1;
    push_quad_vertices(vertices, [x, y, z, x, y, z1, x, y1, z1, x, y, z, x, y1, z1, x, y1, z]);
    push_quad_normals(normals, -1, 0, 0);
    push_quad_texcoords(texcoords);
    proof {
        assert(final(vertices)@ =~= old(vertices)@ + left_vertices(x, y, z));
    }
}

/// Appends the 18 position values of one quad.
fn push_quad_vertices(vertices: &mut Vec<i32>, vals: [i32; 18])
    ensures
        final(vertices)@ == old(vertices)@ + vals@,
{
    let mut i: usize = 0;
    while i < 18
        invariant
            i <= 18,
            vertices@ == old(vertices)@ + vals@.subrange(0, i as int),
        decreases 18 - i,
    {
        vertices.push(vals[i]);
        proof {
            assert(vertices@ =~= old(vertices)@ + vals@.subrange(0, i + 1));
        }
        i = i + 1;
    }
    proof {
        assert(vals@.subrange(0, 18) =~= vals@);
    }
}

/// Appends the 18 normal values of one quad: the face direction, once per
/// vertex.
fn push_quad_normals(normals: &mut Vec<i32>, dx: i32, dy: i32, dz: i32)
    ensures
        final(normals)@ == old(normals)@ + face_normals(dx, dy, dz),
{
    let mut i: usize = 0;
    while i < 6
        invariant
            i <= 6,
            normals@ == old(normals)@ + face_normals(dx, dy, dz).subrange(0, 3 * i as int),
        decreases 6 - i,
    {
        normals.push(dx);
        normals.push(dy);
        normals.push(dz);
        proof {
            assert(normals@ =~= old(normals)@ + face_normals(dx, dy, dz).subrange(
                0,
                3 * (i + 1),
            ));
        }
        i = i + 1;
    }
    proof {
        assert(face_normals(dx, dy, dz).subrange(0, 18) =~= face_normals(dx, dy, dz));
    }
}

/// Appends the 12 texture-coordinate values of one quad.
fn push_quad_texcoords(texcoords: &mut Vec<i32>)
    ensures
        final(texcoords)@ == old(texcoords)@ + face_texcoords(),
{
    let vals: [i32; 12] = [0, 1, 1, 1, 1, 0, 0, 1, 1, 0, 0, 0];
    let mut i: usize = 0;
    while i < 12
        invariant
            i <= 12,
            vals@ == face_texcoords(),
            texcoords@ == old(texcoords)@ + face_texcoords().subrange(0, i as int),
        decreases 12 - i,
    {
        texcoords.push(vals[i]);
        proof {
            assert(texcoords@ =~= old(texcoords)@ + face_texcoords().subrange(0, i + 1));
        }
        i = i + 1;
    }
    proof {
        assert(face_texcoords().subrange(0, 12) =~= face_texcoords());
    }
}

/// Concatenating a face onto buffers that already end in a partial cell mesh
/// yields the buffers of the grown cell mesh.
proof fn lemma_mv_step(ov: Seq<i32>, on: Seq<i32>, ot: Seq<i32>, prev: MeshView, f: MeshView)
    ensures
        (ov + prev.vertices) + f.vertices == ov + mv_add(prev, f).vertices,
        (on + prev.normals) + f.normals == on + mv_add(prev, f).normals,
        (ot + prev.texcoords) + f.texcoords == ot + mv_add(prev, f).texcoords,
{
    vstd::seq_lib::lemma_concat_associative(ov, prev.vertices, f.vertices);
    vstd::seq_lib::lemma_concat_associative(on, prev.normals, f.normals);
    vstd::seq_lib::lemma_concat_associative(ot, prev.texcoords, f.texcoords);
}

/// Concatenating the empty mesh changes nothing.
proof fn lemma_mv_empty_right(ov: Seq<i32>, on: Seq<i32>, ot: Seq<i32>)
    ensures
        ov + mv_empty().vertices == ov,
        on + mv_empty().normals == on,
        ot + mv_empty().texcoords == ot,
{
    assert(ov + mv_empty().vertices =~= ov);
    assert(on + mv_empty().normals =~= on);
    assert(ot + mv_empty().texcoords =~= ot);
}

/// Appends the geometry of one solid cell: one quad for each visible face, in
/// the fixed face order.
fn mesh_cell(
    vertices: &mut Vec<i32>,
    normals: &mut Vec<i32>,
    texcoords: &mut Vec<i32>,
    chunk: &Chunk,
    neighbors: &ChunkNeighbors,
    x: usize,
    y: usize,
    z: usize,
)
    requires
        chunk.wf(),
        neighbors.wf_for(*chunk),
        chunk.in_bounds(x as int, y as int, z as int),
        chunk.side < 0x4000_0000,
        chunk.height < 0x4000_0000,
        chunk.solid_at(x as int, y as int, z as int),
    ensures
        final(vertices)@ == old(vertices)@ + cell_view(
            *chunk,
            *neighbors,
            x as int,
            y as int,
            z as int,
        ).vertices,
        final(normals)@ == old(normals)@ + cell_view(
            *chunk,
            *neighbors,
            x as int,
            y as int,
            z as int,
        ).normals,
        final(texcoords)@ == old(texcoords)@ + cell_view(
            *chunk,
            *neighbors,
            x as int,
            y as int,
            z as int,
        ).texcoords,
{
    let xi = x as i32;
    let yi = y as i32;
    let zi = z as i32;
    let ghost c = *chunk;
    let ghost n = *neighbors;
    let ghost m0 = if face_visible(c, n, x as int, y as int, z as int, 0, 0, 1) {
        face_view(front_vertices(xi, yi, zi), 0, 0, 1)
    } else {
        mv_empty()
    };
    let ghost m1 = if face_visible(c, n, x as int, y as int, z as int, 0, 0, -1) {
        mv_add(m0, face_view(back_vertices(xi, yi, zi), 0, 0, -1i32))
    } else {
        m0
    };
    let ghost m2 = if face_visible(c, n, x as int, y as int, z as int, 0, 1, 0) {
        mv_add(m1, face_view(top_vertices(xi, yi, zi), 0, 1, 0))
    } else {
        m1
    };
    let ghost m3 = if face_visible(c, n, x as int, y as int, z as int, 0, -1, 0) {
        mv_add(m2, face_view(bottom_vertices(xi, yi, zi), 0, -1i32, 0))
    } else {
        m2
    };
    let ghost m4 = if face_visible(c, n, x as int, y as int, z as int, 1, 0, 0) {
        mv_add(m3, face_view(right_vertices(xi, yi, zi), 1, 0, 0))
    } else {
        m3
    };
    let ghost m5 = if face_visible(c, n, x as int, y as int, z as int, -1, 0, 0) {
        mv_add(m4, face_view(left_vertices(xi, yi, zi), -1i32, 0, 0))
    } else {
        m4
    };

    if should_render_face(chunk, neighbors, x, y, z, 0, 0, 1) {
        add_front_face(vertices, normals, texcoords, xi, yi, zi);
    }
    proof {
        if !face_visible(c, n, x as int, y as int, z as int, 0, 0, 1) {
            lemma_mv_empty_right(old(vertices)@, old(normals)@, old(texcoords)@);
        }
        assert(vertices@ == old(vertices)@ + m0.vertices);
        assert(normals@ == old(normals)@ + m0.normals);
        assert(texcoords@ == old(texcoords)@ + m0.texcoords);
    }
    if should_render_face(chunk, neighbors, x, y, z, 0, 0, -1) {
        add_back_face(vertices, normals, texcoords, xi, yi, zi);
    }
    proof {
        if face_visible(c, n, x as int, y as int, z as int, 0, 0, -1) {
            lemma_mv_step(old(vertices)@, old(normals)@, old(texcoords)@, m0, face_view(back_vertices(xi, yi, zi), 0, 0, -1i32));
        }
        assert(vertices@ == old(vertices)@ + m1.vertices);
        assert(normals@ == old(normals)@ + m1.normals);
        assert(texcoords@ == old(texcoords)@ + m1.texcoords);
    }
    if should_render_face(chunk, neighbors, x, y, z, 0, 1, 0) {
        add_top_face(vertices, normals, texcoords, xi, yi, zi);
    }
    proof {
        if face_visible(c, n, x as int, y as int, z as int, 0, 1, 0) {
            lemma_mv_step(old(vertices)@, old(normals)@, old(texcoords)@, m1, face_view(top_vertices(xi, yi, zi), 0, 1, 0));
        }
        assert(vertices@ == old(vertices)@ + m2.vertices);
        assert(normals@ == old(normals)@ + m2.normals);
        assert(texcoords@ == old(texcoords)@ + m2.texcoords);
    }
    if should_render_face(chunk, neighbors, x, y, z, 0, -1, 0) {
        add_bottom_face(vertices, normals, texcoords, xi, yi, zi);
    }
    proof {
        if face_visible(c, n, x as int, y as int, z as int, 0, -1, 0) {
            lemma_mv_step(old(vertices)@, old(normals)@, old(texcoords)@, m2, face_view(bottom_vertices(xi, yi, zi), 0, -1i32, 0));
        }
        assert(vertices@ == old(vertices)@ + m3.vertices);
        assert(normals@ == old(normals)@ + m3.normals);
        assert(texcoords@ == old(texcoords)@ + m3.texcoords);
    }
    if should_render_face(chunk, neighbors, x, y, z, 1, 0, 0) {
        add_right_face(vertices, normals, texcoords, xi, yi, zi);
    }
    proof {
        if face_visible(c, n, x as int, y as int, z as int, 1, 0, 0) {
            lemma_mv_step(old(vertices)@, old(normals)@, old(texcoords)@, m3, face_view(right_vertices(xi, yi, zi), 1, 0, 0));
        }
        assert(vertices@ == old(vertices)@ + m4.vertices);
        assert(normals@ == old(normals)@ + m4.normals);
        assert(texcoords@ == old(texcoords)@ + m4.texcoords);
    }
    if should_render_face(chunk, neighbors, x, y, z, -1, 0, 0) {
        add_left_face(vertices, normals, texcoords, xi, yi, zi);
    }
    proof {
        if face_visible(c, n, x as int, y as int, z as int, -1, 0, 0) {
            lemma_mv_step(old(vertices)@, old(normals)@, old(texcoords)@, m4, face_view(left_vertices(xi, yi, zi), -1i32, 0, 0));
        }
        assert(vertices@ == old(vertices)@ + m5.vertices);
        assert(normals@ == old(normals)@ + m5.normals);
        assert(texcoords@ == old(texcoords)@ + m5.texcoords);
        assert(cell_view(c, n, x as int, y as int, z as int) == m5);
    }
}

/// The three buffers of a mesh stay in step: one normal per position value,
/// and two texture-coordinate values for every three position values.
pub open spec fn mv_lens_ok(m: MeshView) -> bool {
    &&& m.vertices.len() == m.normals.len()
    &&& m.vertices.len() * 2 == m.texcoords.len() * 3
}

proof fn lemma_cell_view_lens(c: Chunk, n: ChunkNeighbors, x: int, y: int, z: int)
    ensures
        mv_lens_ok(cell_view(c, n, x, y, z)),
{
    if c.solid_at(x, y, z) {
        let xi = x as i32;
        let yi = y as i32;
        let zi = z as i32;
        let m0 = if face_visible(c, n, x, y, z, 0, 0, 1) {
            face_view(front_vertices(xi, yi, zi), 0, 0, 1)
        } else {
            mv_empty()
        };
        assert(mv_lens_ok(m0));
        let m1 = if face_visible(c, n, x, y, z, 0, 0, -1) {
            mv_add(m0, face_view(back_vertices(xi, yi, zi), 0, 0, -1i32))
        } else {
            m0
        };
        assert(mv_lens_ok(m1));
        let m2 = if face_visible(c, n, x, y, z, 0, 1, 0) {
            mv_add(m1, face_view(top_vertices(xi, yi, zi), 0, 1, 0))
        } else {
            m1
        };
        assert(mv_lens_ok(m2));
        let m3 = if face_visible(c, n, x, y, z, 0, -1, 0) {
            mv_add(m2, face_view(bottom_vertices(xi, yi, zi), 0, -1i32, 0))
        } else {
            m2
        };
        assert(mv_lens_ok(m3));
        let m4 = if face_visible(c, n, x, y, z, 1, 0, 0) {
            mv_add(m3, face_view(right_vertices(xi, yi, zi), 1, 0, 0))
        } else {
            m3
        };
        assert(mv_lens_ok(m4));
        let m5 = if face_visible(c, n, x, y, z, -1, 0, 0) {
            mv_add(m4, face_view(left_vertices(xi, yi, zi), -1i32, 0, 0))
        } else {
            m4
        };
        assert(mv_lens_ok(m5));
        assert(cell_view(c, n, x, y, z) == m5);
    }
}

proof fn lemma_row_view_lens(c: Chunk, n: ChunkNeighbors, x: int, y: int, zc: int)
    ensures
        mv_lens_ok(row_view(c, n, x, y, zc)),
    decreases zc,
{
    if zc > 0 {
        lemma_row_view_lens(c, n, x, y, zc - 1);
        lemma_cell_view_lens(c, n, x, y, zc - 1);
    }
}

proof fn lemma_plane_view_lens(c: Chunk, n: ChunkNeighbors, x: int, yc: int)
    ensures
        mv_lens_ok(plane_view(c, n, x, yc)),
    decreases yc,
{
    if yc > 0 {
        lemma_plane_view_lens(c, n, x, yc - 1);
        lemma_row_view_lens(c, n, x, yc - 1, c.side as int);
    }
}

proof fn lemma_mesh_view_lens(c: Chunk, n: ChunkNeighbors, xc: int)
    ensures
        mv_lens_ok(mesh_view(c, n, xc)),
    decreases xc,
{
    if xc > 0 {
        lemma_mesh_view_lens(c, n, xc - 1);
        lemma_plane_view_lens(c, n, xc - 1, c.height as int);
    }
}

/// The buffers of a chunk mesh are parallel: as many normal values as
/// position values, and two texture-coordinate values for every three
/// position values.
pub proof fn lemma_mesh_buffer_lengths(c: Chunk, n: ChunkNeighbors)
    ensures
        mv_lens_ok(chunk_mesh_view(c, n)),
{
    lemma_mesh_view_lens(c, n, c.side as int);
}

/// Face-culling on a fully solid chunk with no neighbor information: a face
/// is visible exactly when the cell it faces lies outside the chunk, so every
/// face in the chunk's interior is culled and the mesh holds faces only on
/// the six outer boundary planes.
pub proof fn lemma_solid_chunk_faces_on_boundary(c: Chunk, n: ChunkNeighbors)
    requires
        c.wf(),
        forall|x: int, y: int, z: int| c.in_bounds(x, y, z) ==> #[trigger] c.solid_at(x, y, z),
        n.pos_x is None && n.neg_x is None && n.pos_z is None && n.neg_z is None,
    ensures
        forall|x: int, y: int, z: int, dx: int, dy: int, dz: int|
            c.in_bounds(x, y, z) && unit_dir(dx, dy, dz) ==> (#[trigger] face_visible(
                c,
                n,
                x,
                y,
                z,
                dx,
                dy,
                dz,
            ) <==> !c.in_bounds(x + dx, y + dy, z + dz)),
{
    assert forall|x: int, y: int, z: int, dx: int, dy: int, dz: int|
        c.in_bounds(x, y, z) && unit_dir(dx, dy, dz) implies (#[trigger] face_visible(
        c,
        n,
        x,
        y,
        z,
        dx,
        dy,
        dz,
    ) <==> !c.in_bounds(x + dx, y + dy, z + dz)) by {
        if c.in_bounds(x + dx, y + dy, z + dz) {
            assert(c.solid_at(x + dx, y + dy, z + dz));
        }
    }
}

/// On a fully solid chunk with no neighbor information, a cell that touches
/// none of the six outer boundary planes contributes no geometry at all:
/// every one of its faces abuts a solid cell and is culled.
pub proof fn lemma_solid_chunk_interior_cells_contribute_nothing(
    c: Chunk,
    n: ChunkNeighbors,
    x: int,
    y: int,
    z: int,
)
    requires
        c.wf(),
        forall|xx: int, yy: int, zz: int|
            c.in_bounds(xx, yy, zz) ==> #[trigger] c.solid_at(xx, yy, zz),
        n.pos_x is None && n.neg_x is None && n.pos_z is None && n.neg_z is None,
        1 <= x < c.side - 1,
        1 <= y < c.height - 1,
        1 <= z < c.side - 1,
    ensures
        cell_view(c, n, x, y, z) == mv_empty(),
{
    lemma_solid_chunk_faces_on_boundary(c, n);
    assert(c.in_bounds(x, y, z));
    assert(!face_visible(c, n, x, y, z, 0, 0, 1));
    assert(!face_visible(c, n, x, y, z, 0, 0, -1));
    assert(!face_visible(c, n, x, y, z, 0, 1, 0));
    assert(!face_visible(c, n, x, y, z, 0, -1, 0));
    assert(!face_visible(c, n, x, y, z, 1, 0, 0));
    assert(!face_visible(c, n, x, y, z, -1, 0, 0));
}

/// Neighbor re-cull: a fully solid chunk meshed with no neighbor information
/// exposes its boundary faces toward the missing neighbors, and once a fully
/// solid adjacent chunk is supplied on either side, the shared boundary faces
/// of both chunks are culled.
pub proof fn lemma_neighbor_recull(
    a: Chunk,
    b: Chunk,
    a_alone: ChunkNeighbors,
    b_alone: ChunkNeighbors,
    a_with_b: ChunkNeighbors,
    b_with_a: ChunkNeighbors,
    y: int,
    z: int,
)
    requires
        a.wf(),
        b.wf(),
        a.same_dims(b),
        forall|x: int, yy: int, zz: int|
            a.in_bounds(x, yy, zz) ==> #[trigger] a.solid_at(x, yy, zz),
        forall|x: int, yy: int, zz: int|
            b.in_bounds(x, yy, zz) ==> #[trigger] b.solid_at(x, yy, zz),
        a_alone.pos_x is None,
        b_alone.neg_x is None,
        a_with_b.pos_x == Some(b),
        b_with_a.neg_x == Some(a),
        0 <= y < a.height,
        0 <= z < a.side,
    ensures
        face_visible(a, a_alone, a.side - 1, y, z, 1, 0, 0),
        face_visible(b, b_alone, 0, y, z, -1, 0, 0),
        !face_visible(a, a_with_b, a.side - 1, y, z, 1, 0, 0),
        !face_visible(b, b_with_a, 0, y, z, -1, 0, 0),
{
    assert(b.solid_at(0, y, z)) by {
        assert(b.in_bounds(0, y, z));
    }
    assert(a.solid_at(a.side - 1, y, z)) by {
        assert(a.in_bounds(a.side - 1, y, z));
    }
}

/// Generates the geometry buffers of a chunk: every solid cell is scanned in
/// a fixed order, every face that abuts a solid cell is culled, and every
/// visible face contributes a two-triangle quad.
pub fn generate_chunk_mesh(chunk: &Chunk, neighbors: &ChunkNeighbors) -> (r: MeshBuffers)
    requires
        chunk.wf(),
        neighbors.wf_for(*chunk),
        chunk.side < 0x4000_0000,
        chunk.height < 0x4000_0000,
    ensures
        r.vertices@ == chunk_mesh_view(*chunk, *neighbors).vertices,
        r.normals@ == chunk_mesh_view(*chunk, *neighbors).normals,
        r.texcoords@ == chunk_mesh_view(*chunk, *neighbors).texcoords,
{
    let mut vertices: Vec<i32> = Vec::new();
    let mut normals: Vec<i32> = Vec::new();
    let mut texcoords: Vec<i32> = Vec::new();
    let side = chunk.side;
    let height = chunk.height;

    for x in 0..side
        invariant
            side == chunk.side,
            height == chunk.height,
            chunk.wf(),
            neighbors.wf_for(*chunk),
            chunk.side < 0x4000_0000,
            chunk.height < 0x4000_0000,
            vertices@ == mesh_view(*chunk, *neighbors, x as int).vertices,
            normals@ == mesh_view(*chunk, *neighbors, x as int).normals,
            texcoords@ == mesh_view(*chunk, *neighbors, x as int).texcoords,
    {
        for y in 0..height
            invariant
                side == chunk.side,
                height == chunk.height,
                chunk.wf(),
                neighbors.wf_for(*chunk),
                chunk.side < 0x4000_0000,
                chunk.height < 0x4000_0000,
                x < side,
                vertices@ == mv_add(
                    mesh_view(*chunk, *neighbors, x as int),
                    plane_view(*chunk, *neighbors, x as int, y as int),
                ).vertices,
                normals@ == mv_add(
                    mesh_view(*chunk, *neighbors, x as int),
                    plane_view(*chunk, *neighbors, x as int, y as int),
                ).normals,
                texcoords@ == mv_add(
                    mesh_view(*chunk, *neighbors, x as int),
                    plane_view(*chunk, *neighbors, x as int, y as int),
                ).texcoords,
        {
            for z in 0..side
                invariant
                    side == chunk.side,
                    height == chunk.height,
                    chunk.wf(),
                    neighbors.wf_for(*chunk),
                    chunk.side < 0x4000_0000,
                    chunk.height < 0x4000_0000,
                    x < side,
                    y < height,
                    vertices@ == mv_add(
                        mv_add(
                            mesh_view(*chunk, *neighbors, x as int),
                            plane_view(*chunk, *neighbors, x as int, y as int),
                        ),
                        row_view(*chunk, *neighbors, x as int, y as int, z as int),
                    ).vertices,
                    normals@ == mv_add(
                        mv_add(
                            mesh_view(*chunk, *neighbors, x as int),
                            plane_view(*chunk, *neighbors, x as int, y as int),
                        ),
                        row_view(*chunk, *neighbors, x as int, y as int, z as int),
                    ).normals,
                    texcoords@ == mv_add(
                        mv_add(
                            mesh_view(*chunk, *neighbors, x as int),
                            plane_view(*chunk, *neighbors, x as int, y as int),
                        ),
                        row_view(*chunk, *neighbors, x as int, y as int, z as int),
                    ).texcoords,
            {
                let id = chunk.block_at(x, y, z);
                if id != 0 {
                    mesh_cell(&mut vertices, &mut normals, &mut texcoords, chunk, neighbors, x, y, z);
                }
                proof {
                    let c = *chunk;
                    let n = *neighbors;
                    let base = mv_add(
                        mesh_view(c, n, x as int),
                        plane_view(c, n, x as int, y as int),
                    );
                    assert(row_view(c, n, x as int, y as int, z + 1) == mv_add(
                        row_view(c, n, x as int, y as int, z as int),
                        cell_view(c, n, x as int, y as int, z as int),
                    ));
                    if id == 0 {
                        assert(cell_view(c, n, x as int, y as int, z as int) == mv_empty());
                    }
                    assert(vertices@ =~= mv_add(
                        base,
                        row_view(c, n, x as int, y as int, z + 1),
                    ).vertices);
                    assert(normals@ =~= mv_add(
                        base,
                        row_view(c, n, x as int, y as int, z + 1),
                    ).normals);
                    assert(texcoords@ =~= mv_add(
                        base,
                        row_view(c, n, x as int, y as int, z + 1),
                    ).texcoords);
                }
            }
            proof {
                let c = *chunk;
                let n = *neighbors;
                assert(plane_view(c, n, x as int, y + 1) == mv_add(
                    plane_view(c, n, x as int, y as int),
                    row_view(c, n, x as int, y as int, c.side as int),
                ));
                assert(vertices@ =~= mv_add(
                    mesh_view(c, n, x as int),
                    plane_view(c, n, x as int, y + 1),
                ).vertices);
                assert(normals@ =~= mv_add(
                    mesh_view(c, n, x as int),
                    plane_view(c, n, x as int, y + 1),
                ).normals);
                assert(texcoords@ =~= mv_add(
                    mesh_view(c, n, x as int),
                    plane_view(c, n, x as int, y + 1),
                ).texcoords);
            }
        }
        proof {
            let c = *chunk;
            let n = *neighbors;
            assert(mesh_view(c, n, x + 1) == mv_add(
                mesh_view(c, n, x as int),
                plane_view(c, n, x as int, c.height as int),
            ));
            assert(vertices@ =~= mesh_view(c, n, x + 1).vertices);
            assert(normals@ =~= mesh_view(c, n, x + 1).normals);
            assert(texcoords@ =~= mesh_view(c, n, x + 1).texcoords);
        }
    }
    MeshBuffers { vertices, normals, texcoords }
}

} // verus!
