use dvida_kernel::ejcineque::pools::DiskIOBufferPool;
use dvida_kernel::hal::gpt::{add_entry, find_entry_by_guid, u32_is_power_of_two, GPTEntry, GPTErr, GPTHeader, GptReader};
use dvida_kernel::utils::crc32::full_crc;

fn header(entry_num: u32, entry_size: u32, array_crc32: u32) -> GPTHeader {
    GPTHeader {
        sig: *b"EFI PART",
        revision: 0x0001_0000,
        size: 92,
        header_crc32: 0,
        reserved: 0,
        loc: 1,
        backup_loc: 1000,
        first_usable_block: 34,
        last_usable_block: 966,
        guid: 0x1122_3344_5566_7788_99AA_BBCC_DDEE_FF00,
        array_start: 2,
        entry_num,
        entry_size,
        array_crc32,
    }
}

/// A 512-byte sector holding `h` with its header CRC filled in.
fn sealed_sector(h: &GPTHeader) -> Vec<u8> {
    let mut bytes = h.to_bytes();
    let crc = full_crc(&bytes);
    bytes[16..20].copy_from_slice(&crc.to_le_bytes());
    bytes.resize(512, 0);
    bytes
}

fn entry_bytes(start: u64, name: &str) -> Vec<u8> {
    let mut e = GPTEntry::default();
    e.type_guid = 7;
    e.unique_guid = 9;
    e.start_lba = start;
    e.end_lba = start + 10;
    for (i, u) in name.encode_utf16().enumerate() {
        e.name1[i] = u;
    }
    e.to_bytes()
}

#[test]
fn power_of_two() {
    assert!(u32_is_power_of_two(1));
    assert!(u32_is_power_of_two(2));
    assert!(u32_is_power_of_two(0x8000_0000));
    assert!(!u32_is_power_of_two(0));
    assert!(!u32_is_power_of_two(3));
    assert!(!u32_is_power_of_two(6));
}

#[test]
fn crc_of_nothing() {
    assert_eq!(full_crc(&Vec::new()), 0);
}

#[test]
fn signature() {
    assert!(GptReader::has_signature(b"EFI PART and more"));
    assert!(!GptReader::has_signature(b"EFI PAR"));
    assert!(!GptReader::has_signature(b"EFI PARX"));
}

#[test]
fn header_roundtrip() {
    let h = header(4, 128, 0xDEAD_BEEF);
    let bytes = h.to_bytes();
    assert_eq!(bytes.len(), 92);
    assert_eq!(&bytes[0..8], b"EFI PART");
    let (back, n) = GPTHeader::deserialize(&bytes).unwrap();
    assert_eq!(n, 92);
    assert_eq!(back.entry_num, 4);
    assert_eq!(back.entry_size, 128);
    assert_eq!(back.array_crc32, 0xDEAD_BEEF);
    assert_eq!(back.guid, h.guid);
    assert!(GPTHeader::deserialize(&bytes[..91]).is_err());
}

#[test]
fn table_header_primary_and_backup() {
    let reader = GptReader::new(0);
    let h = header(4, 128, 0);
    let mut sector = sealed_sector(&h);
    let (got, lba, len) = reader.get_table_header(&mut sector, false).unwrap();
    assert_eq!(got.entry_num, 4);
    assert_eq!(lba, 2);
    assert_eq!(len, 512);
    // The CRC field is cleared in the buffer.
    assert_eq!(&sector[16..20], &[0, 0, 0, 0]);

    let mut sector = sealed_sector(&h);
    let (_, lba, _) = reader.get_table_header(&mut sector, true).unwrap();
    assert_eq!(lba, -2);
}

#[test]
fn table_header_partial_sector_count() {
    let reader = GptReader::new(0);
    let h = header(5, 128, 0);
    let mut sector = sealed_sector(&h);
    let (_, lba, len) = reader.get_table_header(&mut sector, true).unwrap();
    // 640 bytes: two sectors hold the array, one whole sector of it is read.
    assert_eq!(lba, -3);
    assert_eq!(len, 512);
}

#[test]
fn table_header_corrupted() {
    let reader = GptReader::new(0);
    let mut sector = sealed_sector(&header(4, 128, 0));
    sector[40] ^= 0x10;
    assert!(matches!(reader.get_table_header(&mut sector, false), Err(GPTErr::GPTCorrupted)));
}

#[test]
fn crc_table_reflects_nine_bits() {
    // The table index is reflected over nine bits before the shift, so its lowest bit is
    // shifted out: two indices that differ only there share an entry.
    let a = vec![0x40u8, 0x02, 0x99];
    let b = vec![0x41u8, 0x02, 0x99];
    assert_eq!(full_crc(&a), full_crc(&b));
    let c = vec![0x42u8, 0x02, 0x99];
    assert_ne!(full_crc(&a), full_crc(&c));
}

#[test]
fn table_header_bad_entry_size() {
    let reader = GptReader::new(0);
    let mut sector = sealed_sector(&header(4, 384, 0));
    assert!(matches!(reader.get_table_header(&mut sector, false), Err(GPTErr::BadArrayEntrySize)));
}

#[test]
fn table_array_entries() {
    let reader = GptReader::new(1);
    assert_eq!(reader.drive_idx(), 1);
    let mut arr = entry_bytes(100, "EFI");
    arr.extend(entry_bytes(0, ""));
    let h = header(2, 128, full_crc(&arr));
    let (got, entries) = reader.get_table_array(h, &arr).unwrap();
    assert_eq!(got.array_crc32, h.array_crc32);
    assert_eq!(entries.len(), 2);
    assert_eq!(entries[0].start_lba, 100);
    assert_eq!(entries[0].end_lba, 110);
    assert_eq!(entries[0].get_name(), "EFI");
    assert!(!entries[0].is_empty());
    assert!(entries[1].is_empty());
    assert_eq!(entries[1].get_name(), "");
}

#[test]
fn table_array_bad_crc() {
    let reader = GptReader::new(1);
    let arr = entry_bytes(100, "EFI");
    let h = header(1, 128, full_crc(&arr) ^ 1);
    assert!(matches!(reader.get_table_array(h, &arr), Err(GPTErr::GPTCorrupted)));
}

#[test]
fn read_gpt_prefers_primary() {
    let p = header(1, 128, 1);
    let b = header(2, 128, 2);
    let r = GptReader::read_gpt(Ok((p, vec![])), Ok((b, vec![]))).unwrap();
    assert_eq!(r.0.entry_num, 1);
    let r = GptReader::read_gpt(Err(GPTErr::GPTCorrupted), Ok((b, vec![]))).unwrap();
    assert_eq!(r.0.entry_num, 2);
    let r = GptReader::read_gpt(Err(GPTErr::BadArrayEntrySize), Err(GPTErr::BufferTooSmall));
    assert!(matches!(r, Err(GPTErr::GPTCorrupted)));
}

#[test]
fn entry_name_with_surrogate() {
    let mut e = GPTEntry::default();
    e.name1[0] = 'A' as u16;
    e.name1[1] = 0xD800;
    e.name1[2] = 0;
    e.name1[3] = 'B' as u16;
    e.name2[0] = 'Z' as u16;
    assert_eq!(e.get_name(), "A BZ");
}

#[test]
fn entry_roundtrip() {
    let bytes = entry_bytes(42, "data");
    assert_eq!(bytes.len(), 128);
    let (e, n) = GPTEntry::deserialize(&bytes).unwrap();
    assert_eq!(n, 128);
    assert_eq!((e.type_guid, e.unique_guid, e.start_lba, e.end_lba), (7, 9, 42, 52));
    assert_eq!(e.get_name(), "data");
    assert_eq!(e.type_guid().to_buf()[0], 7);
    assert_eq!(e.unique_guid().to_buf()[0], 9);
}

#[test]
fn reader_takes_lowest_free_buffer() {
    let frames: Vec<u64> = vec![0x10_0000, 0x20_0000, 0x30_0000, 0x40_0000, 0x50_0000, 0x60_0000, 0x70_0000, 0x80_0000];
    let mut pool = DiskIOBufferPool::new(512, &frames);
    let h0 = GptReader::get_buffer(&mut pool).unwrap();
    let h1 = GptReader::get_buffer(&mut pool).unwrap();
    assert_eq!((h0.idx, h0.inner), (Some(0), 0x10_0000));
    assert_eq!((h1.idx, h1.inner), (Some(1), 0x10_0200));
    assert_eq!(h1.size, 512);
    pool.release(0);
    let h2 = GptReader::get_buffer(&mut pool).unwrap();
    assert_eq!(h2.idx, Some(0));
    assert_eq!(h2.get_buffer().len(), 512);
}

#[test]
fn pool_runs_out() {
    let frames: Vec<u64> = (0..16u64).map(|k| 0x100_0000 + k * 0x1000).collect();
    let mut pool = DiskIOBufferPool::new(1024, &frames);
    for k in 0..64u8 {
        assert_eq!(pool.get_buffer().unwrap().0, k);
    }
    assert!(pool.get_buffer().is_none());
    assert_eq!(pool.mask, u64::MAX);
    pool.release(63);
    assert_eq!(pool.get_buffer().unwrap(), (63, 0x100_0000 + 15 * 0x1000 + 3 * 1024));
}

fn part(start: u64, end: u64) -> GPTEntry {
    let mut e = GPTEntry::default();
    e.start_lba = start;
    e.end_lba = end;
    e.type_guid = 7;
    e.unique_guid = 99;
    e
}

#[test]
fn add_entry_takes_first_free_slot() {
    let h = header(4, 128, 0);
    let entries = vec![part(34, 100), GPTEntry::default(), GPTEntry::default()];
    let (k, nh, es, arr) = add_entry(&h, &entries, &part(101, 200)).unwrap();
    assert_eq!(k, 1);
    assert_eq!((es[1].start_lba, es[1].end_lba, es[1].unique_guid, es[1].type_guid), (101, 200, 0, 7));
    assert_eq!(arr.len(), 4 * 128);
    assert_eq!(&arr[128..256], &es[1].to_bytes()[..]);
    assert!(arr[384..].iter().all(|b| *b == 0));
    assert_eq!(nh.array_crc32, full_crc(&arr));
    let mut check = nh;
    check.header_crc32 = 0;
    assert_eq!(nh.header_crc32, full_crc(&check.to_bytes()));
}

#[test]
fn add_entry_refusals() {
    let h = header(4, 128, 0);
    let full = vec![part(34, 100), part(101, 200)];
    assert!(matches!(add_entry(&h, &full, &part(300, 400)), Err(GPTErr::NoFreeSlot)));
    let entries = vec![part(34, 100), GPTEntry::default()];
    assert!(matches!(add_entry(&h, &entries, &part(50, 150)), Err(GPTErr::OverlappingPartition)));
    assert!(matches!(add_entry(&h, &entries, &part(10, 20)), Err(GPTErr::InvalidLBARange)));
    assert!(matches!(add_entry(&h, &entries, &part(500, 2000)), Err(GPTErr::InvalidLBARange)));
    assert!(matches!(add_entry(&h, &entries, &part(500, 500)), Err(GPTErr::InvalidLBARange)));
}

#[test]
fn root_entry_found_by_guid() {
    let mut a = part(34, 100);
    a.unique_guid = 5;
    let mut b = part(101, 200);
    b.unique_guid = 6;
    let mut c = part(201, 300);
    c.unique_guid = 5;
    let entries = vec![a, b, c];
    assert_eq!(find_entry_by_guid(&entries, 6), Some(1));
    assert_eq!(find_entry_by_guid(&entries, 5), Some(2));
    assert_eq!(find_entry_by_guid(&entries, 7), None);
}
