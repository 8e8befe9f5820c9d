use partshift::crc32::crc32;

#[test]
fn known_check_value() {
    // The standard CRC32 check value for the nine ASCII digits.
    assert_eq!(crc32(b"123456789"), 0xCBF4_3926);
}

#[test]
fn empty_input() {
    assert_eq!(crc32(&[]), 0);
}

#[test]
fn single_byte() {
    // CRC32 of one zero byte.
    assert_eq!(crc32(&[0u8]), 0xD202_EF8D);
}

#[test]
fn differs_on_corruption() {
    let a = crc32(b"EFI PART test vector");
    let b = crc32(b"EFI PARt test vector");
    assert_ne!(a, b);
}
