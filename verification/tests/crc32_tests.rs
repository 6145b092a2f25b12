use trezor_thp::crc32::{checksum, checksum_of_two, to_bytes};

#[test]
fn checksum_of_check_string() {
    assert_eq!(checksum(b"123456789"), 0xCBF4_3926);
}

#[test]
fn checksum_of_nothing_is_zero() {
    assert_eq!(checksum(b""), 0);
}

#[test]
fn checksum_of_two_parts_is_checksum_of_whole() {
    assert_eq!(checksum_of_two(b"1234", b"56789"), 0xCBF4_3926);
}

#[test]
fn checksum_bytes_are_big_endian() {
    assert_eq!(to_bytes(0xCBF4_3926), [0xCB, 0xF4, 0x39, 0x26]);
}
