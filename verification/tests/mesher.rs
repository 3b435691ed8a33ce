use voxel_stream::mesh_gen::{generate_chunk_mesh, should_render_face, ChunkNeighbors};
use voxel_stream::terrain::{Chunk, DynTerr};
use voxel_stream::utils::{ChunkLoc, IntVec3};

fn loc(x: i32, z: i32) -> ChunkLoc {
    ChunkLoc { loc: IntVec3 { x, y: 0, z } }
}

fn solid_chunk_at(x: i32, z: i32, side: usize, height: usize) -> Chunk {
    let heights: Vec<Vec<usize>> = (0..side).map(|_| vec![height; side]).collect();
    DynTerr::gen_chunk(loc(x, z), side, height, &heights)
}

fn air_chunk(side: usize, height: usize) -> Chunk {
    let heights: Vec<Vec<usize>> = (0..side).map(|_| vec![0; side]).collect();
    DynTerr::gen_chunk(loc(0, 0), side, height, &heights)
}

#[test]
fn single_voxel_produces_six_faces() {
    let c = Chunk::with_dims(1, 1);
    let n = ChunkNeighbors::none();
    let m = generate_chunk_mesh(&c, &n);
    // 6 faces x 6 vertices = 36 position triples
    assert_eq!(m.vertices.len(), 108);
    assert_eq!(m.normals.len(), 108);
    assert_eq!(m.texcoords.len(), 72);
}

#[test]
fn single_voxel_surrounded_by_air_still_six_faces() {
    let c = Chunk::with_dims(1, 1);
    let air = air_chunk(1, 1);
    let n = ChunkNeighbors {
        pos_x: Some(air.clone()),
        neg_x: Some(air.clone()),
        pos_z: Some(air.clone()),
        neg_z: Some(air),
    };
    let m = generate_chunk_mesh(&c, &n);
    assert_eq!(m.vertices.len(), 108);
}

#[test]
fn front_face_values_of_single_voxel() {
    let c = Chunk::with_dims(1, 1);
    let n = ChunkNeighbors::none();
    let m = generate_chunk_mesh(&c, &n);
    // the first quad is the front (+z) face of the cell at the origin
    let front = [0, 0, 1, 1, 0, 1, 1, 1, 1, 0, 0, 1, 1, 1, 1, 0, 1, 1];
    assert_eq!(&m.vertices[0..18], &front);
    let front_normals = [0, 0, 1, 0, 0, 1, 0, 0, 1, 0, 0, 1, 0, 0, 1, 0, 0, 1];
    assert_eq!(&m.normals[0..18], &front_normals);
    let uvs = [0, 1, 1, 1, 1, 0, 0, 1, 1, 0, 0, 0];
    assert_eq!(&m.texcoords[0..12], &uvs);
}

#[test]
fn solid_chunk_meshes_boundary_faces_only() {
    // 4 x 3 x 4 fully solid, no neighbors: every interior face is culled,
    // leaving top + bottom (2 * 16) and the four sides (4 * 12): 80 faces.
    let c = Chunk::with_dims(4, 3);
    let n = ChunkNeighbors::none();
    let m = generate_chunk_mesh(&c, &n);
    assert_eq!(m.vertices.len(), 80 * 18);
    assert_eq!(m.normals.len(), 80 * 18);
    assert_eq!(m.texcoords.len(), 80 * 12);

    // zero interior faces: every quad lies flat on one of the six outer
    // boundary planes of the chunk
    for q in 0..80 {
        let verts = &m.vertices[q * 18..(q + 1) * 18];
        let on_plane = |axis: usize, value: i32| (0..6).all(|v| verts[v * 3 + axis] == value);
        assert!(
            on_plane(0, 0)
                || on_plane(0, 4)
                || on_plane(1, 0)
                || on_plane(1, 3)
                || on_plane(2, 0)
                || on_plane(2, 4),
            "face {} lies inside the chunk",
            q
        );
    }
}

#[test]
fn air_chunk_produces_no_geometry() {
    let c = air_chunk(3, 3);
    let n = ChunkNeighbors::none();
    let m = generate_chunk_mesh(&c, &n);
    assert_eq!(m.vertices.len(), 0);
    assert_eq!(m.normals.len(), 0);
    assert_eq!(m.texcoords.len(), 0);
}

#[test]
fn buffers_stay_parallel() {
    let c = Chunk::with_dims(3, 2);
    let n = ChunkNeighbors::none();
    let m = generate_chunk_mesh(&c, &n);
    assert_eq!(m.vertices.len(), m.normals.len());
    assert_eq!(m.vertices.len() * 2, m.texcoords.len() * 3);
}

#[test]
fn neighbor_recull_hides_shared_boundary_faces() {
    // two adjacent fully solid 2 x 2 x 2 chunks
    let a = solid_chunk_at(0, 0, 2, 2);
    let b = solid_chunk_at(1, 0, 2, 2);
    let none = ChunkNeighbors::none();

    // meshed independently, each exposes all boundary faces:
    // 2 * 4 (top + bottom) + 4 * 4 (sides) = 24 faces
    let a_alone = generate_chunk_mesh(&a, &none);
    let b_alone = generate_chunk_mesh(&b, &none);
    assert_eq!(a_alone.vertices.len(), 24 * 18);
    assert_eq!(b_alone.vertices.len(), 24 * 18);

    // remeshed with the neighbor supplied, the 4 faces of the shared plane
    // disappear from each
    let a_n = ChunkNeighbors { pos_x: Some(b.clone()), neg_x: None, pos_z: None, neg_z: None };
    let b_n = ChunkNeighbors { pos_x: None, neg_x: Some(a.clone()), pos_z: None, neg_z: None };
    let a_target = generate_chunk_mesh(&a, &a_n);
    let b_target = generate_chunk_mesh(&b, &b_n);
    assert_eq!(a_target.vertices.len(), 20 * 18);
    assert_eq!(b_target.vertices.len(), 20 * 18);

    // and no +x-facing quad of the shared plane remains in a's output:
    // right-face quads start with x = 2 and normal (1, 0, 0)
    let mut right_face_count = 0;
    for q in a_target.normals.chunks(3) {
        if q == [1, 0, 0] {
            right_face_count += 1;
        }
    }
    assert_eq!(right_face_count, 0);
}

#[test]
fn should_render_face_consults_neighbors() {
    let c = Chunk::with_dims(1, 2);
    let solid = solid_chunk_at(1, 0, 1, 2);
    let air = air_chunk(1, 2);

    // vertical faces leave the world: always rendered
    assert!(should_render_face(&c, &ChunkNeighbors::none(), 0, 1, 0, 0, 1, 0));
    assert!(should_render_face(&c, &ChunkNeighbors::none(), 0, 0, 0, 0, -1, 0));
    // interior face toward a solid cell is culled
    assert!(!should_render_face(&c, &ChunkNeighbors::none(), 0, 0, 0, 0, 1, 0));
    // absent neighbor: rendered
    assert!(should_render_face(&c, &ChunkNeighbors::none(), 0, 0, 0, 1, 0, 0));
    // solid neighbor: culled
    let with_solid = ChunkNeighbors { pos_x: Some(solid), neg_x: None, pos_z: None, neg_z: None };
    assert!(!should_render_face(&c, &with_solid, 0, 0, 0, 1, 0, 0));
    // air neighbor: rendered
    let with_air = ChunkNeighbors { pos_x: Some(air), neg_x: None, pos_z: None, neg_z: None };
    assert!(should_render_face(&c, &with_air, 0, 0, 0, 1, 0, 0));
}
