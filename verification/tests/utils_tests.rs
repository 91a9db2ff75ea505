use dvida_kernel::utils::binary_test;
use dvida_kernel::utils::crc32::{full_crc, initialize_crc32, is_verified_crc32, reflect};
use dvida_kernel::utils::guid::Guid;

#[test]
fn crc_of_check_string() {
    let data: Vec<u8> = b"123456789".to_vec();
    assert_eq!(full_crc(&data), 0x6a75e0a9);
}

#[test]
fn crc_of_empty_and_single() {
    assert_eq!(full_crc(&Vec::new()), 0x0);
    assert_eq!(full_crc(&b"a".to_vec()), 0x33c6b803);
}

#[test]
fn crc_verification() {
    let data: Vec<u8> = b"123456789".to_vec();
    assert!(is_verified_crc32(&data, 0x6a75e0a9));
    assert!(!is_verified_crc32(&data, 0x6a75e0a8));
}

#[test]
fn crc_table_shape() {
    let t = initialize_crc32();
    assert_eq!(t.len(), 256);
    assert_eq!(t[0], 0);
}

#[test]
fn reflect_bits() {
    // Bits 0..=c_char are mirrored: c_char + 1 positions.
    assert_eq!(reflect(0b1, 8), 0b1_0000_0000);
    assert_eq!(reflect(0b0000_0110, 4), 0b0_1100);
    assert_eq!(reflect(0b1_0000_0000, 8), 1);
}

#[test]
fn binary_test_bits() {
    assert!(binary_test(0b100, 2));
    assert!(!binary_test(0b100, 1));
    assert!(binary_test(1u64 << 63, 63));
}

#[test]
fn guid_round_trip() {
    let buf: [u8; 16] = [1, 2, 3, 4, 5, 6, 7, 8, 9, 10, 11, 12, 13, 14, 15, 16];
    let g = Guid::from_buf(&buf);
    assert_eq!(g.to_buf(), buf);
}

#[test]
fn guid_from_u128_matches_bytes() {
    let v: u128 = 0x100f0e0d0c0b0a090807060504030201;
    let a = Guid::from_u128(v);
    let b = Guid::from_buf(&v.to_le_bytes());
    assert_eq!(a.to_buf(), b.to_buf());
    assert_eq!(a.to_buf(), v.to_le_bytes());
}

#[test]
fn guid_new_is_zero() {
    assert_eq!(Guid::new().to_buf(), [0u8; 16]);
}
