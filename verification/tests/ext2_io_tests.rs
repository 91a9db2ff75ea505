use dvida_kernel::drivers::fs::ext2::io::{read_till_next_block, write_till_next_block, Progress};
use dvida_kernel::drivers::fs::ext2::Inode;
use dvida_kernel::hal::fs::HalIOCtx;

fn file_of_size(size: u32) -> Inode {
    let mut inode = Inode::default();
    inode.i_size = size;
    inode
}

#[test]
fn progress_at_head() {
    let p = Progress::at_head(2500, 1024);
    assert_eq!((p.block_idx, p.offset, p.bytes_written), (2, 452, 0));
}

#[test]
fn write_then_read_back() {
    let mut inode = file_of_size(0);
    let mut block = vec![0xEEu8; 16];
    let input = b"hello".to_vec();
    let mut ctx = HalIOCtx::new();
    ctx.head = 3;
    let mut progress = Progress { block_idx: 0, offset: 3, bytes_written: 0 };
    write_till_next_block(&mut inode, 16, &input, &mut ctx, &mut progress, &mut block);
    assert_eq!(&block[3..8], b"hello");
    assert_eq!(block[2], 0xEE);
    assert_eq!(block[8], 0xEE);
    assert_eq!((progress.block_idx, progress.offset, progress.bytes_written), (1, 0, 5));
    assert_eq!(ctx.head, 8);
    // The head started past the file's end: the file now reaches the end of what was written.
    assert_eq!(inode.i_size, 8);

    let mut target = vec![0u8; 5];
    let mut rctx = HalIOCtx::new();
    rctx.head = 3;
    let mut rp = Progress { block_idx: 0, offset: 3, bytes_written: 0 };
    let file = file_of_size(8);
    read_till_next_block(&file, 16, &mut target, &mut rctx, &mut rp, &block);
    assert_eq!(&target, b"hello");
    assert_eq!(rctx.head, 8);
    // The target filled before the block's end: the block does not advance.
    assert_eq!((rp.block_idx, rp.offset, rp.bytes_written), (0, 3, 5));
}

#[test]
fn write_grows_file_from_its_end() {
    let mut inode = file_of_size(4);
    let mut block = vec![0u8; 8];
    let mut ctx = HalIOCtx::new();
    ctx.head = 2;
    let mut progress = Progress { block_idx: 0, offset: 2, bytes_written: 0 };
    write_till_next_block(&mut inode, 8, b"abcdef", &mut ctx, &mut progress, &mut block);
    assert_eq!(&block[2..8], b"abcdef");
    assert_eq!(inode.i_size, 8);
    assert_eq!(progress.bytes_written, 6);
}

#[test]
fn write_inside_file_keeps_size() {
    let mut inode = file_of_size(100);
    let mut block = vec![0u8; 8];
    let mut ctx = HalIOCtx::new();
    let mut progress = Progress { block_idx: 4, offset: 0, bytes_written: 1 };
    write_till_next_block(&mut inode, 8, b"xyz", &mut ctx, &mut progress, &mut block);
    assert_eq!(&block[0..2], b"yz");
    assert_eq!(inode.i_size, 100);
    assert_eq!((progress.block_idx, progress.bytes_written), (5, 3));
}

#[test]
fn read_stops_at_file_end() {
    let block: Vec<u8> = (0u8..8).collect();
    let file = file_of_size(5);
    let mut target = vec![0xFFu8; 8];
    let mut ctx = HalIOCtx::new();
    ctx.head = 1;
    let mut p = Progress { block_idx: 0, offset: 1, bytes_written: 2 };
    read_till_next_block(&file, 8, &mut target, &mut ctx, &mut p, &block);
    assert_eq!(target, vec![0xFF, 0xFF, 1, 2, 3, 4, 0xFF, 0xFF]);
    assert_eq!(ctx.head, 5);
    assert_eq!((p.block_idx, p.offset, p.bytes_written), (0, 1, 6));
}

#[test]
fn read_whole_block_advances() {
    let block: Vec<u8> = (10u8..18).collect();
    let file = file_of_size(100);
    let mut target = vec![0u8; 8];
    let mut ctx = HalIOCtx::new();
    let mut p = Progress { block_idx: 2, offset: 0, bytes_written: 0 };
    read_till_next_block(&file, 8, &mut target, &mut ctx, &mut p, &block);
    assert_eq!(target, block);
    assert_eq!((p.block_idx, p.offset, p.bytes_written), (3, 0, 8));
}

#[test]
fn write_three_bytes_into_empty_file() {
    let mut inode = file_of_size(0);
    let mut block = vec![0u8; 8];
    let mut ctx = HalIOCtx::new();
    let mut progress = Progress { block_idx: 0, offset: 0, bytes_written: 0 };
    write_till_next_block(&mut inode, 8, b"abc", &mut ctx, &mut progress, &mut block);
    assert_eq!(inode.i_size, 3);
    assert_eq!(ctx.head, 3);
}
