use dvida_kernel::drivers::fs::ext2::fs::{identify_ext2, superblock_lba, Ext2Fs};
use dvida_kernel::drivers::fs::ext2::lookup::{next_table_lba, plan_block_lookup, BlockLookup};
use dvida_kernel::drivers::fs::ext2::Inode;
use dvida_kernel::hal::fs::HalFsIOErr;
use dvida_kernel::hal::gpt::GPTEntry;
use dvida_kernel::serialize::DvDeErr;
use dvida_kernel::drivers::fs::ext2::delete::table_pointers_to_free;
use dvida_kernel::drivers::fs::ext2::delete::{direct_blocks_to_free, tables_to_free};
use dvida_kernel::drivers::fs::ext2::fs::{walk_step, WalkStep};

fn inode_with_blocks() -> Inode {
    let mut inode = Inode::default();
    for k in 0..15u32 {
        inode.i_block[k as usize] = 100 + k;
    }
    inode
}

fn sample_fs() -> Ext2Fs {
    let mut raw = vec![0u8; 1024];
    raw[4..8].copy_from_slice(&1000u32.to_le_bytes());
    raw[24..28].copy_from_slice(&1u32.to_le_bytes());
    raw[32..36].copy_from_slice(&8192u32.to_le_bytes());
    raw[56..58].copy_from_slice(&0xEF53u16.to_le_bytes());
    let sb = identify_ext2(&raw).unwrap();
    let mut entry = GPTEntry::default();
    entry.start_lba = 2048;
    entry.end_lba = 4096;
    Ext2Fs::new(0, entry, sb)
}

#[test]
fn superblock_recognised() {
    let mut raw = vec![0u8; 1024];
    assert!(identify_ext2(&raw).is_none());
    raw[56..58].copy_from_slice(&0xEF53u16.to_le_bytes());
    assert!(identify_ext2(&raw).is_some());
    assert!(identify_ext2(&raw[..264]).is_some());
    assert!(identify_ext2(&raw[..263]).is_none());
}

#[test]
fn superblock_sector() {
    let mut entry = GPTEntry::default();
    entry.start_lba = 10;
    entry.end_lba = 8;
    assert_eq!(superblock_lba(&entry), None);
    entry.end_lba = 100;
    assert_eq!(superblock_lba(&entry), Some(12));
    entry.end_lba = 12;
    assert_eq!(superblock_lba(&entry), None);
    entry.end_lba = 13;
    assert_eq!(superblock_lba(&entry), Some(12));
}

#[test]
fn direct_pointer() {
    match plan_block_lookup(&inode_with_blocks(), 5).unwrap() {
        BlockLookup::Direct(b) => assert_eq!(b, 105),
        _ => panic!("expected a direct pointer"),
    }
}

#[test]
fn indirect_chains() {
    let inode = inode_with_blocks();
    match plan_block_lookup(&inode, 12 + 7).unwrap() {
        BlockLookup::Tables { first, slots } => assert_eq!((first, slots), (112, vec![7])),
        _ => panic!(),
    }
    // The second range starts at the triple indirect pointer, the third at the double one.
    match plan_block_lookup(&inode, 268 + 256 * 3 + 9).unwrap() {
        BlockLookup::Tables { first, slots } => assert_eq!((first, slots), (114, vec![3, 9])),
        _ => panic!(),
    }
    match plan_block_lookup(&inode, 65804 + 65536 * 2 + 256 * 5 + 1).unwrap() {
        BlockLookup::Tables { first, slots } => assert_eq!((first, slots), (113, vec![2, 5, 1])),
        _ => panic!(),
    }
    assert!(matches!(plan_block_lookup(&inode, 16843020), Err(HalFsIOErr::FileTooLarge)));
}

#[test]
fn table_pointers() {
    let mut table = vec![0u8; 16];
    table[4..8].copy_from_slice(&0x0102_0304u32.to_le_bytes());
    assert!(matches!(next_table_lba(&table, 1), Ok(0x0102_0304)));
    assert!(matches!(next_table_lba(&table, 3), Ok(0)));
    assert!(matches!(
        next_table_lba(&table, 4),
        Err(HalFsIOErr::DeserializationErr(DvDeErr::WrongBufferSize))
    ));
}

#[test]
fn pointer_to_sector() {
    let fs = sample_fs();
    // Blocks of 2048 bytes: four sectors each.
    let table = 50u32.to_le_bytes();
    assert_eq!(fs.block_of_pointer(&table, 0), 200);
    let mut longer = vec![0u8; 8];
    longer[4..8].copy_from_slice(&3u32.to_le_bytes());
    assert_eq!(fs.block_of_pointer(&longer[4..], 0), 12);
}

#[test]
fn table_pointers_stop_at_zero() {
    let mut table = vec![0u8; 1024];
    table[0..4].copy_from_slice(&7u32.to_le_bytes());
    table[4..8].copy_from_slice(&9u32.to_le_bytes());
    table[12..16].copy_from_slice(&11u32.to_le_bytes());
    assert_eq!(table_pointers_to_free(&table).unwrap(), vec![7, 9]);
    let full: Vec<u8> = (0..1024u32).map(|i| if i % 4 == 0 { 1 } else { 0 }).collect();
    assert_eq!(table_pointers_to_free(&full).unwrap().len(), 256);
    assert!(matches!(
        table_pointers_to_free(&full[..8]),
        Err(HalFsIOErr::DeserializationErr(DvDeErr::WrongBufferSize))
    ));
}

#[test]
fn direct_blocks_and_tables_freed() {
    let mut inode = inode_with_blocks();
    assert_eq!(direct_blocks_to_free(&inode), ((100..112).collect::<Vec<u32>>(), false));
    inode.i_block[3] = 0;
    assert_eq!(direct_blocks_to_free(&inode), (vec![100, 101, 102], true));
    inode.i_blocks = 12;
    assert_eq!(tables_to_free(&inode), (None, None, None));
    inode.i_blocks = 300;
    assert_eq!(tables_to_free(&inode), (Some(112), Some(113), None));
    inode.i_blocks = 70000;
    assert_eq!(tables_to_free(&inode), (Some(112), Some(113), Some(114)));
}

#[test]
fn unlink_and_release() {
    let mut inode = inode_with_blocks();
    inode.i_links_count = 2;
    assert!(!inode.unlink());
    assert!(inode.unlink());
    assert_eq!(inode.i_links_count, 0);
    inode.i_blocks = 40;
    inode.release(1234);
    assert_eq!((inode.i_dtime, inode.i_blocks), (1234, 0));
    assert_eq!(inode.i_block[0], 100);
}

#[test]
fn superblock_counts_after_freeing() {
    let mut fs = sample_fs();
    let free = fs.super_block.s_free_blocks_count;
    let mut inode = Inode::default();
    inode.i_blocks = 8192;
    fs.super_block.count_freed_blocks(&inode);
    // Blocks of 2048 bytes.
    assert_eq!(fs.super_block.s_free_blocks_count, free + 4);
    let inodes = fs.super_block.s_free_inodes_count;
    fs.super_block.count_freed_inode();
    assert_eq!(fs.super_block.s_free_inodes_count, inodes + 1);
}

#[test]
fn walking_a_path() {
    assert_eq!(walk_step(Some(12), false).unwrap(), WalkStep::Descend(12));
    assert_eq!(walk_step(Some(13), true).unwrap(), WalkStep::Found(13));
    assert_eq!(walk_step(None, true).unwrap(), WalkStep::Missing);
    assert!(matches!(walk_step(None, false), Err(HalFsIOErr::NoSuchFileOrDirectory)));
}
