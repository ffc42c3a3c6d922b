//! Decoding a framed packet and applying it to the world in one motion.

use voxel_client::block::Block;
use voxel_client::chunk::{to_chunk_pos, world_to_chunk_relative};
use voxel_client::codec::Reader;
use voxel_client::packets::{decode_server_packet, ServerPacket};
use voxel_client::world::World;

fn block_at(w: &World, x: i32, y: usize, z: i32) -> Block {
    let (cx, cz) = to_chunk_pos(x, z);
    match w.chunk_at(cx, cz) {
        Some(ch) => {
            let (rx, rz) = world_to_chunk_relative(x, z);
            ch.block(rx as usize, y, rz as usize)
        },
        None => Block::Air,
    }
}

#[test]
fn framed_set_block_reaches_the_world() {
    let mut bytes: Vec<u8> = Vec::new();
    bytes.push(53); // single-block mutation
    bytes.extend_from_slice(&7i32.to_be_bytes());
    bytes.push(12); // y
    bytes.extend_from_slice(&(-3i32).to_be_bytes());
    bytes.push(4); // cobblestone
    bytes.push(0); // data
    let mut r = Reader::new(&bytes);
    let packet = decode_server_packet(&mut r).expect("the frame must decode");
    let mut w = World::new(256);
    w.set_camera_position(0, 0);
    match &packet {
        ServerPacket::SetBlock(q) => {
            assert_eq!((q.x, q.y, q.z), (7, 12, -3));
            assert_eq!(q.block, Block::Cobblestone);
        },
        other => panic!("expected a single-block packet, got {:?}", other),
    }
    w.apply_packet(&packet);
    assert_eq!(block_at(&w, 7, 12, -3), Block::Cobblestone);
}

#[test]
fn framed_uninit_chunk_drops_the_chunk() {
    let mut w = World::new(256);
    w.set_camera_position(0, 0);
    w.set_block(1, 1, 1, Block::Stone);
    assert!(w.chunk_at(0, 0).is_some());
    let mut bytes: Vec<u8> = Vec::new();
    bytes.push(50); // chunk init/uninit
    bytes.extend_from_slice(&0i32.to_be_bytes());
    bytes.extend_from_slice(&0i32.to_be_bytes());
    bytes.push(0); // init = false
    let mut r = Reader::new(&bytes);
    let packet = decode_server_packet(&mut r).expect("the frame must decode");
    w.apply_packet(&packet);
    assert!(w.chunk_at(0, 0).is_none());
}

#[test]
fn informational_packets_leave_the_world_alone() {
    let mut w = World::new(256);
    w.set_camera_position(0, 0);
    w.set_block(1, 1, 1, Block::Stone);
    let mut bytes: Vec<u8> = Vec::new();
    bytes.push(4); // world time
    bytes.extend_from_slice(&123456i64.to_be_bytes());
    let mut r = Reader::new(&bytes);
    let packet = decode_server_packet(&mut r).expect("the frame must decode");
    w.apply_packet(&packet);
    assert_eq!(block_at(&w, 1, 1, 1), Block::Stone);
    assert_eq!(w.camera_chunk(), (0, 0));
}

#[test]
fn two_framed_packets_decode_in_sequence() {
    let mut bytes: Vec<u8> = Vec::new();
    bytes.push(8); // health
    bytes.extend_from_slice(&20i16.to_be_bytes());
    bytes.push(29); // remove entity
    bytes.extend_from_slice(&55i32.to_be_bytes());
    let mut r = Reader::new(&bytes);
    match decode_server_packet(&mut r) {
        Ok(ServerPacket::SetHealth(q)) => assert_eq!(q.health, 20),
        other => panic!("expected a health packet, got {:?}", other),
    }
    match decode_server_packet(&mut r) {
        Ok(ServerPacket::RemoveEntity(q)) => assert_eq!(q.id, 55),
        other => panic!("expected a remove-entity packet, got {:?}", other),
    }
    assert_eq!(r.position(), bytes.len());
}
