use simwheel::bytes::{read_bytes_64, read_i32_le, read_u32_le, read_u32x4_le};

#[test]
fn u32_little_endian() {
    assert_eq!(read_u32_le(&[0x78, 0x56, 0x34, 0x12], 0), 0x1234_5678);
    assert_eq!(read_u32_le(&[0, 0xff, 0xff, 0xff, 0xff], 1), u32::MAX);
}

#[test]
fn i32_little_endian_signed() {
    assert_eq!(read_i32_le(&(-2i32).to_le_bytes(), 0), -2);
    assert_eq!(read_i32_le(&i32::MIN.to_le_bytes(), 0), i32::MIN);
    assert_eq!(read_i32_le(&i32::MAX.to_le_bytes(), 0), i32::MAX);
}

#[test]
fn u32x4_reads_consecutive_values() {
    let mut b = vec![9u8];
    for v in [1u32, 2, 3, 0xdead_beef] {
        b.extend_from_slice(&v.to_le_bytes());
    }
    assert_eq!(read_u32x4_le(&b, 1), [1, 2, 3, 0xdead_beef]);
}

#[test]
fn bytes_64_copies_window() {
    let b: Vec<u8> = (0..100u8).collect();
    let a = read_bytes_64(&b, 10);
    assert_eq!(a[0], 10);
    assert_eq!(a[63], 73);
}
