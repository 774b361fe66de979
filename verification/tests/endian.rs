use sbtb::endian::{read_be, read_le, write_be, write_le};

#[test]
fn read_le_sums_bytes_by_place() {
    assert_eq!(read_le(&[]), 0);
    assert_eq!(read_le(&[7]), 7);
    assert_eq!(read_le(&[0x34, 0x12]), 0x1234);
    assert_eq!(read_le(&[1, 0, 0]), 1);
    assert_eq!(read_le(&[0, 0, 1]), 0x1_0000);
    assert_eq!(read_le(&[0xff; 8]), u64::MAX);
}

#[test]
fn read_be_sums_bytes_by_place() {
    assert_eq!(read_be(&[]), 0);
    assert_eq!(read_be(&[7]), 7);
    assert_eq!(read_be(&[0x34, 0x12]), 0x3412);
    assert_eq!(read_be(&[1, 0, 0]), 0x1_0000);
    assert_eq!(read_be(&[0, 0, 1]), 1);
    assert_eq!(read_be(&[0xff; 8]), u64::MAX);
}

#[test]
fn write_le_gives_the_low_digits() {
    assert_eq!(write_le(0x1234, 0), Vec::<u8>::new());
    assert_eq!(write_le(0x1234, 1), vec![0x34]);
    assert_eq!(write_le(0x1234, 2), vec![0x34, 0x12]);
    assert_eq!(write_le(0x1234, 4), vec![0x34, 0x12, 0, 0]);
    assert_eq!(write_le(u64::MAX, 9), vec![0xff, 0xff, 0xff, 0xff, 0xff, 0xff, 0xff, 0xff, 0]);
}

#[test]
fn write_be_gives_the_low_digits() {
    assert_eq!(write_be(0x1234, 0), Vec::<u8>::new());
    assert_eq!(write_be(0x1234, 1), vec![0x34]);
    assert_eq!(write_be(0x1234, 2), vec![0x12, 0x34]);
    assert_eq!(write_be(0x1234, 4), vec![0, 0, 0x12, 0x34]);
    assert_eq!(write_be(u64::MAX, 9), vec![0, 0xff, 0xff, 0xff, 0xff, 0xff, 0xff, 0xff, 0xff]);
}

#[test]
fn big_endian_is_little_endian_reversed() {
    for v in [0u64, 1, 0xabcd, 0x0102_0304_0506_0708, u64::MAX] {
        for width in 0..=8 {
            let mut le = write_le(v, width);
            le.reverse();
            assert_eq!(le, write_be(v, width));
        }
    }
}
