use voxel_client::block::Block;

#[test]
fn test_block_size() {
    assert_eq!(std::mem::size_of::<Block>(), 1);
}

#[test]
fn block_read_known_ids() {
    assert_eq!(Block::read(0, 0), Some(Block::Air));
    assert_eq!(Block::read(1, 0), Some(Block::Stone));
    assert_eq!(Block::read(2, 0), Some(Block::Grass));
    assert_eq!(Block::read(3, 0), Some(Block::Dirt));
    assert_eq!(Block::read(4, 0), Some(Block::Cobblestone));
    assert_eq!(Block::read(5, 0), Some(Block::Planks));
}

#[test]
fn block_read_unknown_id_is_none() {
    assert_eq!(Block::read(6, 0), None);
    assert_eq!(Block::read(255, 0), None);
}

#[test]
fn block_read_ignores_data_byte() {
    assert_eq!(Block::read(2, 9), Some(Block::Grass));
}
