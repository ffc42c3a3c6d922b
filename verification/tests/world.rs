//! Slot-table streaming: the visible-window invariant, slot reuse, and the
//! chunk init/uninit lifecycle.

use voxel_client::block::Block;
use voxel_client::chunk::{to_chunk_pos, world_to_chunk_relative};
use voxel_client::packets::InitChunk;
use voxel_client::world::World;

fn block_at(w: &World, x: i32, y: usize, z: i32) -> Block {
    let (cx, cz) = to_chunk_pos(x, z);
    match w.chunk_at(cx, cz) {
        Some(ch) => {
            let (rx, rz) = world_to_chunk_relative(x, z);
            ch.block(rx as usize, y, rz as usize)
        },
        None => Block::Air,
    }
}

#[test]
fn coordinate_split() {
    assert_eq!(to_chunk_pos(0, 0), (0, 0));
    assert_eq!(to_chunk_pos(15, 31), (0, 1));
    assert_eq!(to_chunk_pos(-1, -16), (-1, -1));
    assert_eq!(to_chunk_pos(-17, 16), (-2, 1));
    assert_eq!(world_to_chunk_relative(0, 0), (0, 0));
    assert_eq!(world_to_chunk_relative(-1, -16), (15, 0));
    assert_eq!(world_to_chunk_relative(33, -17), (1, 15));
}

#[test]
fn chunk_in_window_gets_a_slot_and_far_chunk_does_not() {
    let mut w = World::new(256);
    w.set_camera_position(0, 0);
    w.set_block(5, 10, 5, Block::Stone);
    let near = w.chunk_at(0, 0).expect("the chunk was created");
    assert!(near.slot_index().is_some());
    w.set_block(1000, 10, 1000, Block::Dirt);
    let far = w.chunk_at(62, 62).expect("the far chunk was created");
    assert!(far.slot_index().is_none());
    assert_eq!(block_at(&w, 5, 10, 5), Block::Stone);
    assert_eq!(block_at(&w, 1000, 10, 1000), Block::Dirt);
}

#[test]
fn camera_move_rescans_the_window() {
    let mut w = World::new(256);
    w.set_camera_position(0, 0);
    w.set_block(5, 10, 5, Block::Stone);
    w.set_block(1000, 10, 1000, Block::Dirt);
    assert!(w.chunk_at(0, 0).unwrap().slot_index().is_some());
    assert!(w.chunk_at(62, 62).unwrap().slot_index().is_none());
    w.set_camera_position(1000, 1000);
    assert_eq!(w.camera_chunk(), (62, 62));
    assert!(w.chunk_at(0, 0).unwrap().slot_index().is_none());
    assert!(w.chunk_at(62, 62).unwrap().slot_index().is_some());
}

#[test]
fn occupied_slots_are_unique_and_bounded() {
    let mut w = World::new(256);
    w.set_camera_position(0, 0);
    // Fill every cell of the 17 x 17 window, plus chunks outside it.
    for cx in -8..=8 {
        for cz in -8..=8 {
            w.set_block(cx * 16 + 1, 0, cz * 16 + 1, Block::Stone);
        }
    }
    w.set_block(300, 0, 300, Block::Dirt);
    let mut seen = Vec::new();
    for cx in -8..=8 {
        for cz in -8..=8 {
            let ch = w.chunk_at(cx, cz).expect("window chunk exists");
            let idx = ch.slot_index().expect("window chunk is slotted");
            assert!(idx < 17 * 17, "slot index {} out of range", idx);
            assert!(!seen.contains(&idx), "slot index {} assigned twice", idx);
            assert_eq!(ch.slot_offset(), idx as u32 * 256);
            seen.push(idx);
        }
    }
    assert_eq!(seen.len(), 17 * 17);
    assert!(w.chunk_at(18, 18).unwrap().slot_index().is_none());
}

#[test]
fn uninit_frees_the_slot_and_reappearance_gets_a_fresh_one() {
    let mut w = World::new(256);
    w.set_camera_position(0, 0);
    w.set_block(5, 10, 5, Block::Stone);
    let first = w.chunk_at(0, 0).unwrap().slot_index().expect("slotted");
    w.handle_init_chunk(&InitChunk { chunk_x: 0, chunk_z: 0, init: false });
    assert!(w.chunk_at(0, 0).is_none());
    // The coordinate's later re-appearance is eligible for a fresh slot.
    w.set_block(5, 10, 5, Block::Dirt);
    let second = w.chunk_at(0, 0).unwrap().slot_index().expect("slotted again");
    assert!(second < 17 * 17);
    // With nothing else slotted, the lowest free index is reused.
    assert_eq!(first, second);
    assert_eq!(block_at(&w, 5, 10, 5), Block::Dirt);
}

#[test]
fn init_true_is_a_no_op() {
    let mut w = World::new(256);
    w.set_camera_position(0, 0);
    w.handle_init_chunk(&InitChunk { chunk_x: 3, chunk_z: 4, init: true });
    assert!(w.chunk_at(3, 4).is_none());
}

#[test]
fn set_block_updates_one_voxel_only() {
    let mut w = World::new(256);
    w.set_camera_position(0, 0);
    w.set_block(-1, 5, -1, Block::Planks);
    assert_eq!(block_at(&w, -1, 5, -1), Block::Planks);
    assert_eq!(block_at(&w, -2, 5, -1), Block::Air);
    assert_eq!(block_at(&w, -1, 6, -1), Block::Air);
    assert_eq!(block_at(&w, 0, 5, 0), Block::Air);
}

#[test]
fn rebuild_dirty_meshes_cleans_every_chunk() {
    let mut w = World::new(256);
    w.set_camera_position(0, 0);
    w.set_block(1, 1, 1, Block::Stone);
    w.set_block(100, 1, 100, Block::Dirt);
    w.rebuild_dirty_meshes();
    let near = w.chunk_at(0, 0).unwrap();
    assert!(!near.needs_mesh_rebuild());
    let mesh = near.mesh().expect("rebuilt");
    assert_eq!(mesh.vertices.len(), 24);
    let far = w.chunk_at(6, 6).unwrap();
    assert!(!far.needs_mesh_rebuild());
    assert!(far.mesh().is_some());
}
