use dvida_kernel::drivers::fs::ext2::bitmap::{clear_bit, first_clear_bit, set_bit, test_bit};
use dvida_kernel::drivers::fs::ext2::dir::{
    find_entry_in_block, init_dir_block, insert_entry_in_block, insert_shape, scan_shape, DirEntry,
    DirEntryPartial, InsertShape, ScanShape,
};
use dvida_kernel::drivers::fs::ext2::io::Progress;
use dvida_kernel::drivers::fs::ext2::listing::{list_block_entries, listing_is_stuck};
use dvida_kernel::hal::fs::HalFsIOErr;
use dvida_kernel::serialize::{DvDeErr, DvSerErr};

fn put_entry(buf: &mut Vec<u8>, at: usize, inode: u32, rec_len: u16, name: &str) {
    buf[at..at + 4].copy_from_slice(&inode.to_le_bytes());
    buf[at + 4..at + 6].copy_from_slice(&rec_len.to_le_bytes());
    buf[at + 6] = name.len() as u8;
    buf[at + 7] = 0;
    buf[at + 8..at + 8 + name.len()].copy_from_slice(name.as_bytes());
}

/// A block of 1024 bytes holding ".", ".." and "hello" (inode 12), 40 bytes of directory.
fn sample_block() -> Vec<u8> {
    let mut buf = vec![0u8; 1024];
    put_entry(&mut buf, 0, 2, 12, ".");
    put_entry(&mut buf, 12, 2, 12, "..");
    put_entry(&mut buf, 24, 12, 16, "hello");
    buf
}

#[test]
fn dir_entry_partial_roundtrip() {
    let e = DirEntryPartial { inode: 0x0102_0304, rec_len: 0x0506, name_len: 7, file_type: 2 };
    let bytes = e.to_bytes();
    assert_eq!(bytes, vec![0x04, 0x03, 0x02, 0x01, 0x06, 0x05, 7, 2]);
    let (back, n) = DirEntryPartial::deserialize(&bytes).unwrap();
    assert_eq!(n, 8);
    assert_eq!(back, e);
    assert_eq!(e.min_reclen(), 16);
}

#[test]
fn dir_entry_partial_short_input() {
    assert!(matches!(DirEntryPartial::deserialize(&[1, 2, 3]), Err(DvDeErr::WrongBufferSize)));
    let e = DirEntryPartial { inode: 1, rec_len: 12, name_len: 1, file_type: 0 };
    let mut small = vec![0u8; 7];
    assert!(matches!(e.serialize(&mut small, 0), Err(DvSerErr::BufferTooSmall)));
    assert_eq!(small, vec![0u8; 7]);
}

#[test]
fn dir_entry_new_record_length() {
    let e = DirEntry::new(5, String::from("abc"));
    assert_eq!(e.inode, 5);
    assert_eq!(e.rec_len, 12);
    assert_eq!(e.record_length(), 12);
    let e = DirEntry::new(5, String::from("abcde"));
    assert_eq!(e.rec_len, 16);
}

#[test]
fn dir_entry_serialize_then_deserialize() {
    let e = DirEntry::new(77, String::from("file.txt"));
    let mut buf = vec![0xAAu8; 64];
    let n = e.serialize(&mut buf, 4).unwrap();
    assert_eq!(n, e.rec_len as usize);
    assert_eq!(buf[0..4], [0xAA; 4]);
    let (back, read) = DirEntry::deserialize(&buf[4..]).unwrap();
    assert_eq!(back.inode, 77);
    assert_eq!(back.name, "file.txt");
    assert_eq!(back.rec_len, e.rec_len);
    assert_eq!(read, e.rec_len as usize);
}

#[test]
fn dir_entry_serialize_errors() {
    let e = DirEntry::new(1, String::from("x"));
    let mut tiny = vec![0u8; 6];
    assert!(matches!(e.serialize(&mut tiny, 0), Err(DvSerErr::BufferTooSmall)));
    let long = DirEntry { inode: 1, rec_len: 0, file_type: 0, name: "y".repeat(256) };
    let mut buf = vec![0u8; 600];
    assert!(matches!(long.serialize(&mut buf, 0), Err(DvSerErr::BadStringLength(0, 255))));
}

#[test]
fn dir_entry_deserialize_rejects_record_past_end() {
    let mut buf = vec![0u8; 16];
    put_entry(&mut buf, 0, 3, 20, "ab");
    assert!(matches!(DirEntry::deserialize(&buf), Err(DvDeErr::WrongBufferSize)));
    put_entry(&mut buf, 0, 3, 12, "ab");
    let (e, n) = DirEntry::deserialize(&buf).unwrap();
    assert_eq!((e.inode, n), (3, 12));
}

#[test]
fn dir_entry_deserialize_accepts_last_entry_of_block() {
    let buf: [u8; 12] = [2, 0, 0, 0, 12, 0, 1, 2, b'.', 0, 0, 0];
    let (e, n) = DirEntry::deserialize(&buf).unwrap();
    assert_eq!((e.inode, e.rec_len, e.file_type, n), (2, 12, 2, 12));
    assert_eq!(e.name, ".");
}

#[test]
fn find_entry_finds_name() {
    let mut buf = sample_block();
    let mut remaining: u32 = 40;
    let r = find_entry_in_block("hello", &mut buf, 1024, false, false, &mut remaining).unwrap();
    assert_eq!(r, (Some(12), true));
    assert_eq!(remaining, 0);
    assert_eq!(buf, sample_block());
}

#[test]
fn find_entry_missing_name() {
    let mut buf = sample_block();
    let mut remaining: u32 = 40;
    let r = find_entry_in_block("world", &mut buf, 1024, false, false, &mut remaining).unwrap();
    assert_eq!(r, (None, false));
    assert_eq!(remaining, 0);
}

#[test]
fn find_entry_skips_dot_entries() {
    let mut buf = sample_block();
    let mut remaining: u32 = 40;
    let r = find_entry_in_block(".", &mut buf, 1024, false, false, &mut remaining).unwrap();
    assert_eq!(r, (None, false));
}

#[test]
fn find_entry_is_empty_matches_nothing() {
    let mut buf = sample_block();
    let mut remaining: u32 = 40;
    let r = find_entry_in_block("hello", &mut buf, 1024, false, true, &mut remaining).unwrap();
    assert_eq!(r, (None, false));
}

#[test]
fn find_entry_delete_merges_into_previous() {
    let mut buf = sample_block();
    let mut remaining: u32 = 40;
    let r = find_entry_in_block("hello", &mut buf, 1024, true, false, &mut remaining).unwrap();
    assert_eq!(r, (Some(12), true));
    // ".." now spans the removed record.
    assert_eq!(u16::from_le_bytes([buf[16], buf[17]]), 28);
}

#[test]
fn find_entry_delete_first_entry_becomes_unused() {
    let mut buf = vec![0u8; 1024];
    put_entry(&mut buf, 0, 9, 20, "target");
    let mut remaining: u32 = 20;
    let r = find_entry_in_block("target", &mut buf, 1024, true, false, &mut remaining).unwrap();
    assert_eq!(r, (Some(9), true));
    assert_eq!(u32::from_le_bytes([buf[0], buf[1], buf[2], buf[3]]), 0);
    assert_eq!(u16::from_le_bytes([buf[4], buf[5]]), 16);
    assert_eq!(buf[6], 0);
}

#[test]
fn find_entry_unparsable_block() {
    let mut buf = vec![0u8; 1024];
    put_entry(&mut buf, 0, 9, 1030, "big");
    let mut remaining: u32 = 2048;
    let r = find_entry_in_block("big", &mut buf, 1024, false, false, &mut remaining);
    assert!(matches!(r, Err(HalFsIOErr::DeserializationErr(_))));
}

#[test]
fn insert_entry_splits_last_record() {
    let mut buf = vec![0u8; 1024];
    put_entry(&mut buf, 0, 2, 12, ".");
    put_entry(&mut buf, 12, 2, 1012, "..");
    let mut e = DirEntry::new(30, String::from("a"));
    let r = insert_entry_in_block(&mut e, &mut buf, 1024).unwrap();
    assert!(r);
    assert_eq!(u16::from_le_bytes([buf[16], buf[17]]), 12);
    assert_eq!(e.rec_len, 1000);
    // The new record runs to the end of the block.
    assert_eq!(buf[24..33], [30, 0, 0, 0, 0xE8, 0x03, 1, 0, b'a']);
}

#[test]
fn insert_entry_full_block() {
    let mut buf = vec![0u8; 24];
    put_entry(&mut buf, 0, 2, 12, ".");
    put_entry(&mut buf, 12, 2, 12, "..");
    let before = buf.clone();
    let mut e = DirEntry::new(30, String::from("a"));
    assert_eq!(insert_entry_in_block(&mut e, &mut buf, 24).unwrap(), false);
    assert_eq!(buf, before);
}

#[test]
fn insert_entry_corrupted_block() {
    let mut buf = vec![0u8; 64];
    put_entry(&mut buf, 0, 2, 60, ".");
    let mut e = DirEntry::new(30, String::from("a"));
    assert!(matches!(insert_entry_in_block(&mut e, &mut buf, 32), Err(HalFsIOErr::Corrupted)));
}

#[test]
fn init_dir_block_single_entry() {
    let mut buf = vec![0xFFu8; 64];
    let mut e = DirEntry::new(11, String::from("."));
    init_dir_block(&mut e, &mut buf, 64).unwrap();
    assert_eq!(e.rec_len, 64);
    assert_eq!(buf[0..9], [11, 0, 0, 0, 64, 0, 1, 0, b'.']);
    assert!(buf[9..].iter().all(|b| *b == 0));
}

#[test]
fn init_dir_block_small_buffer() {
    let mut buf = vec![0u8; 4];
    let mut e = DirEntry::new(11, String::from("."));
    assert!(matches!(
        init_dir_block(&mut e, &mut buf, 4),
        Err(HalFsIOErr::SerializationErr(DvSerErr::BufferTooSmall))
    ));
}

#[test]
fn bitmap_set_clear_test() {
    let mut bm = vec![0u8; 4];
    set_bit(&mut bm, 0);
    set_bit(&mut bm, 9);
    assert_eq!(bm, vec![0x01, 0x02, 0, 0]);
    assert!(test_bit(&bm, 9));
    assert!(!test_bit(&bm, 8));
    clear_bit(&mut bm, 9);
    assert!(!test_bit(&bm, 9));
    assert_eq!(bm, vec![0x01, 0, 0, 0]);
}

#[test]
fn bitmap_first_clear_bit() {
    let bm = vec![0xFFu8, 0x07, 0];
    assert_eq!(first_clear_bit(&bm, 24), Some(11));
    assert_eq!(first_clear_bit(&bm, 11), None);
    assert_eq!(first_clear_bit(&[0u8], 8), Some(0));
}

#[test]
fn insert_then_find_in_middle_record() {
    let mut buf = vec![0u8; 1024];
    put_entry(&mut buf, 0, 2, 12, ".");
    put_entry(&mut buf, 12, 2, 500, "..");
    put_entry(&mut buf, 512, 40, 512, "z");
    let mut e = DirEntry::new(77, String::from("a"));
    assert!(insert_entry_in_block(&mut e, &mut buf, 1024).unwrap());
    assert_eq!(e.rec_len, 488);
    let mut remaining: u32 = 1024;
    let r = find_entry_in_block("a", &mut buf, 1024, false, false, &mut remaining).unwrap();
    assert_eq!(r, (Some(77), false));
    assert_eq!(remaining, 512);
}

fn listing_block() -> Vec<u8> {
    let mut buf = vec![0u8; 64];
    put_entry(&mut buf, 0, 2, 12, ".");
    put_entry(&mut buf, 12, 2, 12, "..");
    put_entry(&mut buf, 24, 12, 16, "hello");
    put_entry(&mut buf, 40, 0, 12, "");
    // The last record reaches past the block's end, so it does not parse.
    put_entry(&mut buf, 52, 5, 13, "");
    buf
}

#[test]
fn listing_a_block() {
    let buf = listing_block();
    let mut target = vec![0u8; 200];
    let mut offset: i64 = 0;
    let mut progress = Progress { block_idx: 0, offset: 0, bytes_written: 0 };
    let r = list_block_entries(&buf, 52, &mut target, &mut offset, &mut progress);
    assert_eq!(r, (true, true));
    assert_eq!(offset, 52);
    assert_eq!(progress.bytes_written, 24 + 24 + 32);
    // The record of ".": inode, offset after it, record length, type, name, zero.
    assert_eq!(&target[0..8], &2u64.to_le_bytes());
    assert_eq!(&target[8..16], &12i64.to_le_bytes());
    assert_eq!(&target[16..18], &24u16.to_le_bytes());
    assert_eq!(&target[19..21], &[b'.', 0]);
    assert_eq!(&target[48..56], &12u64.to_le_bytes());
    assert_eq!(&target[56..64], &40i64.to_le_bytes());
    assert_eq!(&target[67..73], b"hello\0");
}

#[test]
fn listing_goes_on_to_next_block() {
    let buf = listing_block();
    let mut target = vec![0u8; 200];
    let mut offset: i64 = 0;
    let mut progress = Progress { block_idx: 3, offset: 0, bytes_written: 0 };
    let r = list_block_entries(&buf, 100, &mut target, &mut offset, &mut progress);
    assert_eq!(r, (false, false));
    assert_eq!((progress.block_idx, progress.offset), (4, 0));
}

#[test]
fn listing_stops_when_target_full() {
    let buf = listing_block();
    let mut target = vec![0u8; 60];
    let mut offset: i64 = 0;
    let mut progress = Progress { block_idx: 0, offset: 0, bytes_written: 0 };
    let r = list_block_entries(&buf, 52, &mut target, &mut offset, &mut progress);
    assert_eq!(r, (false, true));
    assert_eq!(progress.bytes_written, 48);
    assert_eq!(offset, 24);
    assert_eq!((progress.block_idx, progress.offset), (1, 0));
}

#[test]
fn scan_shape_before_searching() {
    let buf = sample_block();
    assert_eq!(scan_shape(&buf, 1024, "hello", false, 40), ScanShape::Found { at: 24, prev: 12 });
    assert_eq!(scan_shape(&buf, 1024, "nope", false, 40), ScanShape::Other);
    // The directory size runs out before the entries do.
    assert_eq!(scan_shape(&buf, 1024, "hello", false, 30), ScanShape::Stuck);
    let mut zero = vec![0u8; 64];
    put_entry(&mut zero, 0, 3, 0, "x");
    assert_eq!(scan_shape(&zero, 64, "y", false, 100), ScanShape::Stuck);
}

#[test]
fn insert_shape_before_inserting() {
    let mut buf = vec![0u8; 1024];
    put_entry(&mut buf, 0, 2, 12, ".");
    put_entry(&mut buf, 12, 2, 1012, "..");
    assert_eq!(insert_shape(&buf, 1024, 12), InsertShape::Fits { at: 12, off: 24 });
    let mut full = vec![0u8; 24];
    put_entry(&mut full, 0, 2, 12, ".");
    put_entry(&mut full, 12, 2, 12, "..");
    assert_eq!(insert_shape(&full, 24, 12), InsertShape::Other);
    let mut short = vec![0u8; 24];
    put_entry(&mut short, 0, 2, 4, "abc");
    assert_eq!(insert_shape(&short, 24, 12), InsertShape::Stuck);
}

#[test]
fn listing_stuck_check() {
    let buf = listing_block();
    assert!(!listing_is_stuck(&buf, 0, 0, 200, 0));
    let mut zero = vec![0u8; 64];
    put_entry(&mut zero, 0, 3, 0, "x");
    assert!(listing_is_stuck(&zero, 0, 0, 200, 0));
    assert!(listing_is_stuck(&buf, 0, i64::MAX - 5, 200, 0));
}
