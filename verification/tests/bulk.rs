//! Bulk block regions: the cross-chunk fallback path writes exactly what an
//! equivalent sequence of single-voxel writes would, and the compressed wire
//! form decodes.

use voxel_client::block::Block;
use voxel_client::chunk::{to_chunk_pos, world_to_chunk_relative};
use voxel_client::codec::Reader;
use voxel_client::packets::{SetBlocks, SetContiguousBlocks};
use voxel_client::world::World;

fn block_at(w: &World, x: i32, y: usize, z: i32) -> Block {
    let (cx, cz) = to_chunk_pos(x, z);
    match w.chunk_at(cx, cz) {
        Some(ch) => {
            let (rx, rz) = world_to_chunk_relative(x, z);
            ch.block(rx as usize, y, rz as usize)
        },
        None => Block::Air,
    }
}

fn region_blocks(xs: i32, ys: i32, zs: i32) -> Vec<Block> {
    let mut blocks = Vec::new();
    let kinds = [Block::Stone, Block::Dirt, Block::Cobblestone, Block::Planks, Block::Grass];
    for i in 0..(xs * ys * zs) as usize {
        blocks.push(kinds[i % kinds.len()]);
    }
    blocks
}

/// Applies a region by single-voxel writes in the same scan order the bulk
/// handler uses.
fn apply_by_single_writes(w: &mut World, p: &SetContiguousBlocks) {
    let mut index = 0usize;
    for dx in 0..p.x_size {
        for dz in 0..p.z_size {
            for dy in 0..p.y_size {
                w.set_block(p.x + dx, p.y + dy, p.z + dz, p.blocks[index]);
                index += 1;
            }
        }
    }
}

fn assert_worlds_agree(a: &World, b: &World, p: &SetContiguousBlocks) {
    // Every voxel of the region and a border of one voxel around it.
    for wx in (p.x - 1)..=(p.x + p.x_size) {
        for wz in (p.z - 1)..=(p.z + p.z_size) {
            for wy in (p.y - 1).max(0)..=(p.y + p.y_size).min(127) {
                assert_eq!(
                    block_at(a, wx, wy as usize, wz),
                    block_at(b, wx, wy as usize, wz),
                    "worlds disagree at {}, {}, {}",
                    wx,
                    wy,
                    wz
                );
            }
        }
    }
}

#[test]
fn cross_chunk_region_equals_single_writes() {
    // Start and end fall in different chunks on both axes.
    let p = SetContiguousBlocks {
        x: 12,
        y: 5,
        z: 14,
        x_size: 8,
        y_size: 3,
        z_size: 6,
        blocks: region_blocks(8, 3, 6),
    };
    let mut fast = World::new(256);
    fast.set_camera_position(0, 0);
    let mut slow = World::new(256);
    slow.set_camera_position(0, 0);
    fast.handle_set_contiguous_blocks(&p);
    apply_by_single_writes(&mut slow, &p);
    assert_worlds_agree(&fast, &slow, &p);
    assert_eq!(block_at(&fast, 12, 5, 14), p.blocks[0]);
    assert_eq!(block_at(&fast, 11, 5, 14), Block::Air);
}

#[test]
fn single_chunk_region_equals_single_writes() {
    let p = SetContiguousBlocks {
        x: 33,
        y: 10,
        z: 34,
        x_size: 4,
        y_size: 2,
        z_size: 3,
        blocks: region_blocks(4, 2, 3),
    };
    let mut fast = World::new(256);
    fast.set_camera_position(0, 0);
    let mut slow = World::new(256);
    slow.set_camera_position(0, 0);
    fast.handle_set_contiguous_blocks(&p);
    apply_by_single_writes(&mut slow, &p);
    assert_worlds_agree(&fast, &slow, &p);
}

/// A zlib stream holding `data` in one stored deflate block.
fn zlib_store(data: &[u8]) -> Vec<u8> {
    let mut out = vec![0x78u8, 0x01];
    out.push(0x01); // final stored block
    let len = data.len() as u16;
    out.extend_from_slice(&len.to_le_bytes());
    out.extend_from_slice(&(!len).to_le_bytes());
    out.extend_from_slice(data);
    let mut a: u32 = 1;
    let mut b: u32 = 0;
    for &byte in data {
        a = (a + byte as u32) % 65521;
        b = (b + a) % 65521;
    }
    out.extend_from_slice(&(((b << 16) | a).to_be_bytes()));
    out
}

#[test]
fn set_contiguous_blocks_decodes_compressed_payload() {
    // A 2 x 1 x 1 region: ids stone, grass.
    let compressed = zlib_store(&[1u8, 2]);
    let mut body: Vec<u8> = Vec::new();
    body.extend_from_slice(&10i32.to_be_bytes());
    body.extend_from_slice(&5i16.to_be_bytes());
    body.extend_from_slice(&20i32.to_be_bytes());
    body.push(1); // x extent minus one
    body.push(0);
    body.push(0);
    body.extend_from_slice(&(compressed.len() as i32).to_be_bytes());
    body.extend_from_slice(&compressed);
    let mut r = Reader::new(&body);
    let p = SetContiguousBlocks::deserialize(&mut r).expect("bulk packet must decode");
    assert_eq!(p.x, 10);
    assert_eq!(p.y, 5);
    assert_eq!(p.z, 20);
    assert_eq!(p.x_size, 2);
    assert_eq!(p.y_size, 1);
    assert_eq!(p.z_size, 1);
    assert_eq!(p.blocks, vec![Block::Stone, Block::Grass]);
    assert_eq!(r.position(), body.len());
}

#[test]
fn set_contiguous_blocks_unknown_id_falls_back_to_stone() {
    let compressed = zlib_store(&[200u8]);
    let mut body: Vec<u8> = Vec::new();
    body.extend_from_slice(&0i32.to_be_bytes());
    body.extend_from_slice(&0i16.to_be_bytes());
    body.extend_from_slice(&0i32.to_be_bytes());
    body.push(0);
    body.push(0);
    body.push(0);
    body.extend_from_slice(&(compressed.len() as i32).to_be_bytes());
    body.extend_from_slice(&compressed);
    let mut r = Reader::new(&body);
    let p = SetContiguousBlocks::deserialize(&mut r).expect("bulk packet must decode");
    assert_eq!(p.blocks, vec![Block::Stone]);
}

#[test]
fn set_blocks_applies_listed_positions() {
    let body: Vec<u8> = {
        let mut b: Vec<u8> = Vec::new();
        b.extend_from_slice(&1i32.to_be_bytes()); // chunk x
        b.extend_from_slice(&0i32.to_be_bytes()); // chunk z
        b.extend_from_slice(&2i16.to_be_bytes()); // two entries
        // position x=3, y=7, z=2 packs as x<<12 | z<<8 | y
        b.extend_from_slice(&(((3u16) << 12) | ((2u16) << 8) | 7).to_be_bytes());
        b.extend_from_slice(&(((4u16) << 12) | ((1u16) << 8) | 9).to_be_bytes());
        b.extend_from_slice(&[1, 3]); // types: stone, dirt
        b.extend_from_slice(&[0, 0]); // data
        b
    };
    let mut r = Reader::new(&body);
    let p = SetBlocks::deserialize(&mut r).expect("multi-block packet must decode");
    assert_eq!(p.positions, vec![(3, 7, 2), (4, 9, 1)]);
    let mut w = World::new(256);
    w.set_camera_position(0, 0);
    w.handle_set_blocks(&p);
    assert_eq!(block_at(&w, 16 + 3, 7, 2), Block::Stone);
    assert_eq!(block_at(&w, 16 + 4, 9, 1), Block::Dirt);
    assert_eq!(block_at(&w, 16 + 3, 8, 2), Block::Air);
}
