//! Face counts of the culled mesh.

use voxel_client::block::Block;
use voxel_client::chunk::{Chunk, SolidBlockUv, BlockModel};

#[test]
fn isolated_voxel_meshes_six_quads() {
    let mut ch = Chunk::new(0, 0, 0, None);
    ch.set_block(8, 10, 8, Block::Stone);
    assert!(ch.needs_mesh_rebuild());
    ch.rebuild_mesh();
    assert!(!ch.needs_mesh_rebuild());
    let mesh = ch.mesh().expect("a rebuilt chunk has a mesh");
    assert_eq!(mesh.vertices.len(), 24);
    assert_eq!(mesh.indices.len(), 36);
}

#[test]
fn voxel_with_one_neighbour_meshes_five_quads() {
    let mut ch = Chunk::new(0, 0, 0, None);
    ch.set_block(8, 10, 8, Block::Stone);
    ch.set_block(9, 10, 8, Block::Dirt);
    ch.rebuild_mesh();
    // Each of the two voxels hides one face against the other: five quads
    // apiece.
    let mesh = ch.mesh().expect("a rebuilt chunk has a mesh");
    assert_eq!(mesh.vertices.len(), 2 * 5 * 4);
    assert_eq!(mesh.indices.len(), 2 * 5 * 6);
    // And the stone voxel by itself contributes exactly five quads.
    let mut vertices = Vec::new();
    let mut indices = Vec::new();
    match Block::Stone.model() {
        BlockModel::Solid(solid) => {
            ch.build_full_block_model(8, 10, 8, &mut vertices, &mut indices, &solid);
        },
    }
    assert_eq!(vertices.len(), 5 * 4);
    assert_eq!(indices.len(), 5 * 6);
}

#[test]
fn empty_chunk_meshes_nothing() {
    let mut ch = Chunk::new(0, 0, 0, None);
    ch.rebuild_mesh();
    let mesh = ch.mesh().expect("a rebuilt chunk has a mesh");
    assert_eq!(mesh.vertices.len(), 0);
    assert_eq!(mesh.indices.len(), 0);
}

#[test]
fn boundary_voxel_faces_count_as_exposed() {
    // A voxel in the chunk corner still shows all six faces: the boundary is
    // always treated as exposed.
    let mut ch = Chunk::new(0, 0, 0, None);
    ch.set_block(0, 0, 0, Block::Cobblestone);
    ch.rebuild_mesh();
    let mesh = ch.mesh().expect("a rebuilt chunk has a mesh");
    assert_eq!(mesh.vertices.len(), 24);
    assert_eq!(mesh.indices.len(), 36);
}

#[test]
fn grass_has_distinct_top_and_bottom_tiles() {
    match Block::Grass.model() {
        BlockModel::Solid(uv) => {
            assert_eq!(uv.pos_y, (0, 0));
            assert_eq!(uv.neg_y, (2, 0));
            assert_eq!(uv.pos_x, (3, 0));
        },
    }
}

#[test]
fn solid_uv_all_covers_every_face() {
    match SolidBlockUv::all(1, 0) {
        BlockModel::Solid(uv) => {
            assert_eq!(uv.pos_x, (1, 0));
            assert_eq!(uv.neg_x, (1, 0));
            assert_eq!(uv.pos_y, (1, 0));
            assert_eq!(uv.neg_y, (1, 0));
            assert_eq!(uv.pos_z, (1, 0));
            assert_eq!(uv.neg_z, (1, 0));
        },
    }
}

#[test]
fn set_block_marks_dirty_and_rebuild_clears() {
    let mut ch = Chunk::new(3, -2, 0, None);
    ch.rebuild_mesh();
    assert!(!ch.needs_mesh_rebuild());
    ch.set_block(1, 1, 1, Block::Planks);
    assert!(ch.needs_mesh_rebuild());
    ch.rebuild_mesh();
    assert!(!ch.needs_mesh_rebuild());
    assert_eq!(ch.block(1, 1, 1), Block::Planks);
    assert_eq!(ch.coords(), (3, -2));
}
