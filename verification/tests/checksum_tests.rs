use netstack::utils::calculate_checksum;

#[test]
fn test_calculate_checksum() {
    let data = [
        0x1f, 0x40, 0x1f, 0x41, 0x0, 0x1c, 0x0, 0x0, 0x30, 0x31, 0x32, 0x33, 0x34, 0x35, 0x36,
        0x37, 0x38, 0x39,
    ];
    let sum = calculate_checksum(&data, 0);
    assert_eq!(calculate_checksum(&data, sum), 0);
}

#[test]
fn test_checksum_empty() {
    assert_eq!(calculate_checksum(&[], 0), 0xffff);
}

#[test]
fn test_checksum_odd_length() {
    // The final lone byte counts as the high byte of a 16-bit word.
    let data = [0x12];
    assert_eq!(calculate_checksum(&data, 0), !0x1200u16);
    let sum = calculate_checksum(&data, 0);
    assert_eq!(calculate_checksum(&data, sum), 0);
}

#[test]
fn test_checksum_involution_longer() {
    let mut data = Vec::new();
    let mut i: u32 = 0;
    while i < 1001 {
        data.push((i % 251) as u8);
        i += 1;
    }
    let sum = calculate_checksum(&data, 0);
    assert_eq!(calculate_checksum(&data, sum), 0);
}

#[test]
fn test_checksum_carry_fold() {
    // 0xffff + 0x0001 folds: sum 0x10000 -> 0x0001, complement 0xfffe.
    let data = [0xff, 0xff, 0x00, 0x01];
    assert_eq!(calculate_checksum(&data, 0), 0xfffe);
}
