use dvida_kernel::drivers::fs::ext2::allocator::{BlockAllocator, count_freed_block, mark_block_free, mark_block_used, AllocatedBlock};
use dvida_kernel::drivers::fs::ext2::block_iterator::{BlockFetch, BlockSet, InodeBlockIterator, TableLevel};
use dvida_kernel::drivers::fs::ext2::layout::{BufferManager, GroupManager, IoHandler};
use dvida_kernel::drivers::fs::ext2::{GroupDescriptor, Inode};

fn iterator(blocks: [u32; 15]) -> InodeBlockIterator {
    let io = IoHandler { drive_id: 0, start_lba: 0, block_size: 1024 };
    InodeBlockIterator::new(blocks, 0, 1024, io, 20)
}

#[test]
fn direct_block_set_then_get() {
    let mut blocks = [0u32; 15];
    blocks[0] = 55;
    let mut it = iterator(blocks);
    assert_eq!(it.set(), BlockSet::Done { block: 55 });
    assert_eq!(it.get(), BlockFetch::Data { block: 55 });
    assert_eq!(it.cur_block_idx(), 55);
}

#[test]
fn missing_direct_block_is_allocated() {
    let mut it = iterator([0u32; 15]);
    it.advance();
    assert_eq!(it.get(), BlockFetch::Zeroed);
    assert_eq!(it.set(), BlockSet::Allocate);
    it.provide_block(AllocatedBlock { addr: 80, block_relatve_idx: 40, gr_number: 0, block_global_idx: 40 });
    assert_eq!(it.get_blocks_array()[1], 40);
    assert_eq!(it.set(), BlockSet::Done { block: 40 });
    assert_eq!(it.get(), BlockFetch::Data { block: 40 });
}

#[test]
fn indirect_block_needs_its_table() {
    let mut blocks = [0u32; 15];
    blocks[12] = 70;
    let mut it = iterator(blocks);
    it.skip(12);
    assert_eq!(it.get(), BlockFetch::LoadTable { level: TableLevel::Single, block: 70, record: true });
    let mut table = vec![0u8; 1024];
    table[0..4].copy_from_slice(&99u32.to_le_bytes());
    it.load_table(TableLevel::Single, 70, true, table);
    assert_eq!(it.get(), BlockFetch::Data { block: 99 });
}

#[test]
fn block_used_then_freed() {
    let mut bitmap = vec![0b0000_0101u8, 0];
    let before = bitmap.clone();
    mark_block_used(&mut bitmap, 9);
    assert_eq!(bitmap, vec![0b0000_0101, 0b0000_0010]);
    mark_block_free(&mut bitmap, 9, 16);
    assert_eq!(bitmap, before);
    // A block of a later group is marked by its global index but freed by its index in the
    // group.
    mark_block_used(&mut bitmap, 10);
    mark_block_free(&mut bitmap, 10 + 16, 16);
    assert_eq!(bitmap, before);
}

#[test]
fn group_descriptor_round_trip() {
    let g = GroupDescriptor {
        bg_block_bitmap: 3,
        bg_inode_bitmap: 4,
        bg_inode_table: 5,
        bg_free_blocks_count: 1000,
        bg_free_inodes_count: 2000,
        bg_used_dirs_count: 2,
    };
    let bytes = g.to_bytes();
    assert_eq!(bytes.len(), 18);
    assert_eq!(&bytes[12..14], &1000u16.to_le_bytes());
    let (back, n) = GroupDescriptor::deserialize(&bytes).unwrap();
    assert_eq!(n, 18);
    assert_eq!(back, g);
}

#[test]
fn inode_round_trip() {
    let mut inode = Inode::default();
    inode.i_mode = 0x81A4;
    inode.i_size = 4096;
    inode.i_links_count = 1;
    inode.i_block[14] = 0xDEAD;
    let bytes = inode.to_bytes();
    let (back, n) = Inode::deserialize(&bytes).unwrap();
    assert_eq!(n, bytes.len());
    assert_eq!(back.i_mode, 0x81A4);
    assert_eq!(back.i_size, 4096);
    assert_eq!(back.i_block[14], 0xDEAD);
    assert!(back.is_regular_file());
    assert!(!back.is_directory());
    assert_eq!(back.permissions(), 0o644);
}

#[test]
fn freed_block_raises_free_count() {
    let mut buf = vec![0u8; 64];
    buf[32 + 12] = 0xFF;
    buf[32 + 13] = 0x00;
    count_freed_block(&mut buf, 32);
    assert_eq!(u16::from_le_bytes([buf[44], buf[45]]), 0x100);
    assert_eq!(buf[43], 0);
    assert_eq!(buf[46], 0);
}

#[test]
fn freed_blocks_held_once_by_group() {
    let io = IoHandler { drive_id: 0, start_lba: 0, block_size: 1024 };
    let gm = GroupManager { io_handler: io, blocks_per_group: 100, first_data_block: 1, block_size: 1024 };
    let mut a = BlockAllocator::new(4, gm, io, BufferManager { block_size: 1024 });
    a.add_freed_block(5);
    a.add_freed_block(250);
    a.add_freed_block(5);
    a.add_freed_block(120);
    assert_eq!(a.unwritten_freed_blocks, vec![5, 250, 120]);
    assert_eq!(a.freed_block_groups(), vec![0, 2, 1]);
    a.clear_freed_blocks();
    assert!(a.unwritten_freed_blocks.is_empty());
}

#[test]
fn indirect_pointers_four_bytes_apart() {
    let mut blocks = [0u32; 15];
    blocks[12] = 70;
    let mut it = iterator(blocks);
    it.skip(13);
    let mut table = vec![0u8; 1024];
    table[0..4].copy_from_slice(&99u32.to_le_bytes());
    table[4..8].copy_from_slice(&123u32.to_le_bytes());
    it.load_table(TableLevel::Single, 70, true, table);
    // index 13 is the second pointer of the single indirect table
    assert_eq!(it.get(), BlockFetch::Data { block: 123 });
}
