use sbtb::data::{Binary32, Binary64};
use sbtb::traits::Data;
use sbtb::FpgaApiError;

#[test]
fn widths_of_the_scalar_types() {
    assert_eq!(<u8 as Data>::byte_width(), 1);
    assert_eq!(<u16 as Data>::byte_width(), 2);
    assert_eq!(<u32 as Data>::byte_width(), 4);
    assert_eq!(<u64 as Data>::byte_width(), 8);
    assert_eq!(<i8 as Data>::byte_width(), 1);
    assert_eq!(<i16 as Data>::byte_width(), 2);
    assert_eq!(<i32 as Data>::byte_width(), 4);
    assert_eq!(<i64 as Data>::byte_width(), 8);
    assert_eq!(<Binary32 as Data>::byte_width(), 4);
    assert_eq!(<Binary64 as Data>::byte_width(), 8);
}

#[test]
fn u8_both_orders() {
    assert_eq!(Data::to_le_bytes(0xabu8), vec![0xab]);
    assert_eq!(Data::to_be_bytes(0xabu8), vec![0xab]);
    assert_eq!(<u8 as Data>::from_le_bytes(&[0xab]), Ok(0xab));
    assert_eq!(<u8 as Data>::from_be_bytes(&[0xab]), Ok(0xab));
}

#[test]
fn u16_both_orders() {
    assert_eq!(Data::to_le_bytes(0x1234u16), vec![0x34, 0x12]);
    assert_eq!(Data::to_be_bytes(0x1234u16), vec![0x12, 0x34]);
    assert_eq!(<u16 as Data>::from_le_bytes(&[0x34, 0x12]), Ok(0x1234));
    assert_eq!(<u16 as Data>::from_be_bytes(&[0x34, 0x12]), Ok(0x3412));
}

#[test]
fn u32_both_orders() {
    assert_eq!(Data::to_le_bytes(0x1234_5678u32), vec![0x78, 0x56, 0x34, 0x12]);
    assert_eq!(Data::to_be_bytes(0x1234_5678u32), vec![0x12, 0x34, 0x56, 0x78]);
    assert_eq!(<u32 as Data>::from_le_bytes(&[0x78, 0x56, 0x34, 0x12]), Ok(0x1234_5678));
    assert_eq!(<u32 as Data>::from_be_bytes(&[0x78, 0x56, 0x34, 0x12]), Ok(0x7856_3412));
}

#[test]
fn u64_both_orders() {
    let v = 0x0102_0304_0506_0708u64;
    assert_eq!(Data::to_le_bytes(v), vec![8, 7, 6, 5, 4, 3, 2, 1]);
    assert_eq!(Data::to_be_bytes(v), vec![1, 2, 3, 4, 5, 6, 7, 8]);
    assert_eq!(<u64 as Data>::from_le_bytes(&[8, 7, 6, 5, 4, 3, 2, 1]), Ok(v));
    assert_eq!(<u64 as Data>::from_be_bytes(&[1, 2, 3, 4, 5, 6, 7, 8]), Ok(v));
    assert_eq!(Data::to_le_bytes(u64::MAX), vec![0xff; 8]);
    assert_eq!(<u64 as Data>::from_be_bytes(&[0xff; 8]), Ok(u64::MAX));
}

#[test]
fn i8_both_orders() {
    assert_eq!(Data::to_le_bytes(-1i8), vec![0xff]);
    assert_eq!(Data::to_be_bytes(i8::MIN), vec![0x80]);
    assert_eq!(<i8 as Data>::from_le_bytes(&[0x80]), Ok(i8::MIN));
    assert_eq!(<i8 as Data>::from_be_bytes(&[0x7f]), Ok(i8::MAX));
}

#[test]
fn i16_both_orders() {
    assert_eq!(Data::to_le_bytes(-2i16), vec![0xfe, 0xff]);
    assert_eq!(Data::to_be_bytes(-2i16), vec![0xff, 0xfe]);
    assert_eq!(<i16 as Data>::from_le_bytes(&[0x00, 0x80]), Ok(i16::MIN));
    assert_eq!(<i16 as Data>::from_be_bytes(&[0x7f, 0xff]), Ok(i16::MAX));
}

#[test]
fn i32_both_orders() {
    assert_eq!(Data::to_le_bytes(-0x0300_0000i32), vec![0x00, 0x00, 0x00, 0xfd]);
    assert_eq!(Data::to_be_bytes(-0x0300_0000i32), vec![0xfd, 0x00, 0x00, 0x00]);
    assert_eq!(<i32 as Data>::from_le_bytes(&[0x00, 0x00, 0x00, 0x80]), Ok(i32::MIN));
    assert_eq!(<i32 as Data>::from_be_bytes(&[0xff, 0xff, 0xff, 0xff]), Ok(-1));
}

#[test]
fn i64_both_orders() {
    assert_eq!(Data::to_le_bytes(-1i64), vec![0xff; 8]);
    assert_eq!(Data::to_be_bytes(i64::MIN), vec![0x80, 0, 0, 0, 0, 0, 0, 0]);
    assert_eq!(<i64 as Data>::from_le_bytes(&[0, 0, 0, 0, 0, 0, 0, 0x80]), Ok(i64::MIN));
    assert_eq!(
        <i64 as Data>::from_be_bytes(&[0x7f, 0xff, 0xff, 0xff, 0xff, 0xff, 0xff, 0xff]),
        Ok(i64::MAX)
    );
}

#[test]
fn binary32_keeps_the_bits_of_a_float() {
    let v = Binary32::from_bits(1.5f32.to_bits());
    assert_eq!(Data::to_le_bytes(v), vec![0x00, 0x00, 0xc0, 0x3f]);
    assert_eq!(Data::to_be_bytes(v), vec![0x3f, 0xc0, 0x00, 0x00]);
    assert_eq!(Data::to_le_bytes(v), 1.5f32.to_le_bytes().to_vec());
    let back = <Binary32 as Data>::from_le_bytes(&[0x00, 0x00, 0xc0, 0x3f]).unwrap();
    assert_eq!(f32::from_bits(back.to_bits()), 1.5f32);
    let back = <Binary32 as Data>::from_be_bytes(&(-2.25f32).to_be_bytes()).unwrap();
    assert_eq!(f32::from_bits(back.to_bits()), -2.25f32);
}

#[test]
fn binary32_keeps_the_payload_of_a_nan() {
    let bits = 0x7fc1_2345u32;
    let v = Binary32::from_bits(bits);
    let back = <Binary32 as Data>::from_le_bytes(&Data::to_le_bytes(v)).unwrap();
    assert_eq!(back.to_bits(), bits);
    assert!(f32::from_bits(back.to_bits()).is_nan());
}

#[test]
fn binary64_keeps_the_bits_of_a_float() {
    let v = Binary64::from_bits(1.5f64.to_bits());
    assert_eq!(Data::to_le_bytes(v), vec![0, 0, 0, 0, 0, 0, 0xf8, 0x3f]);
    assert_eq!(Data::to_be_bytes(v), vec![0x3f, 0xf8, 0, 0, 0, 0, 0, 0]);
    let back = <Binary64 as Data>::from_le_bytes(&(-1.0e300f64).to_le_bytes()).unwrap();
    assert_eq!(f64::from_bits(back.to_bits()), -1.0e300f64);
    let back = <Binary64 as Data>::from_be_bytes(&f64::MIN_POSITIVE.to_be_bytes()).unwrap();
    assert_eq!(f64::from_bits(back.to_bits()), f64::MIN_POSITIVE);
}

#[test]
fn wrong_length_is_a_length_mismatch() {
    let nine = [0u8; 9];
    for len in 0..=9 {
        let buf = &nine[..len];
        if len != 1 {
            assert_eq!(<u8 as Data>::from_le_bytes(buf), Err(FpgaApiError::LengthMismatch));
            assert_eq!(<u8 as Data>::from_be_bytes(buf), Err(FpgaApiError::LengthMismatch));
            assert_eq!(<i8 as Data>::from_le_bytes(buf), Err(FpgaApiError::LengthMismatch));
            assert_eq!(<i8 as Data>::from_be_bytes(buf), Err(FpgaApiError::LengthMismatch));
        }
        if len != 2 {
            assert_eq!(<u16 as Data>::from_le_bytes(buf), Err(FpgaApiError::LengthMismatch));
            assert_eq!(<u16 as Data>::from_be_bytes(buf), Err(FpgaApiError::LengthMismatch));
            assert_eq!(<i16 as Data>::from_le_bytes(buf), Err(FpgaApiError::LengthMismatch));
            assert_eq!(<i16 as Data>::from_be_bytes(buf), Err(FpgaApiError::LengthMismatch));
        }
        if len != 4 {
            assert_eq!(<u32 as Data>::from_le_bytes(buf), Err(FpgaApiError::LengthMismatch));
            assert_eq!(<u32 as Data>::from_be_bytes(buf), Err(FpgaApiError::LengthMismatch));
            assert_eq!(<i32 as Data>::from_le_bytes(buf), Err(FpgaApiError::LengthMismatch));
            assert_eq!(<i32 as Data>::from_be_bytes(buf), Err(FpgaApiError::LengthMismatch));
            assert_eq!(<Binary32 as Data>::from_le_bytes(buf), Err(FpgaApiError::LengthMismatch));
            assert_eq!(<Binary32 as Data>::from_be_bytes(buf), Err(FpgaApiError::LengthMismatch));
        }
        if len != 8 {
            assert_eq!(<u64 as Data>::from_le_bytes(buf), Err(FpgaApiError::LengthMismatch));
            assert_eq!(<u64 as Data>::from_be_bytes(buf), Err(FpgaApiError::LengthMismatch));
            assert_eq!(<i64 as Data>::from_le_bytes(buf), Err(FpgaApiError::LengthMismatch));
            assert_eq!(<i64 as Data>::from_be_bytes(buf), Err(FpgaApiError::LengthMismatch));
            assert_eq!(<Binary64 as Data>::from_le_bytes(buf), Err(FpgaApiError::LengthMismatch));
            assert_eq!(<Binary64 as Data>::from_be_bytes(buf), Err(FpgaApiError::LengthMismatch));
        }
    }
}

#[test]
fn encode_always_has_the_width_of_the_type() {
    for v in [0u64, 1, 0xff, 0x100, u32::MAX as u64, u64::MAX] {
        assert_eq!(Data::to_le_bytes(v).len(), 8);
        assert_eq!(Data::to_be_bytes(v).len(), 8);
        assert_eq!(Data::to_le_bytes(v as u32).len(), 4);
        assert_eq!(Data::to_be_bytes(v as u32).len(), 4);
        assert_eq!(Data::to_le_bytes(v as i16).len(), 2);
        assert_eq!(Data::to_be_bytes(v as i16).len(), 2);
        assert_eq!(Data::to_le_bytes(v as i8).len(), 1);
        assert_eq!(Data::to_be_bytes(v as u8).len(), 1);
    }
}

#[test]
fn round_trip_of_every_one_byte_value() {
    for v in 0..=u8::MAX {
        assert_eq!(<u8 as Data>::from_le_bytes(&Data::to_le_bytes(v)), Ok(v));
        assert_eq!(<u8 as Data>::from_be_bytes(&Data::to_be_bytes(v)), Ok(v));
        let s = v as i8;
        assert_eq!(<i8 as Data>::from_le_bytes(&Data::to_le_bytes(s)), Ok(s));
        assert_eq!(<i8 as Data>::from_be_bytes(&Data::to_be_bytes(s)), Ok(s));
    }
}

#[test]
fn round_trip_of_every_two_byte_value() {
    for v in 0..=u16::MAX {
        assert_eq!(<u16 as Data>::from_le_bytes(&Data::to_le_bytes(v)), Ok(v));
        assert_eq!(<u16 as Data>::from_be_bytes(&Data::to_be_bytes(v)), Ok(v));
        let s = v as i16;
        assert_eq!(<i16 as Data>::from_le_bytes(&Data::to_le_bytes(s)), Ok(s));
        assert_eq!(<i16 as Data>::from_be_bytes(&Data::to_be_bytes(s)), Ok(s));
    }
}

#[test]
fn round_trip_of_wide_values() {
    let samples = [
        0u64,
        1,
        0x7f,
        0x80,
        0xff,
        0x7fff_ffff,
        0x8000_0000,
        0xffff_ffff,
        0x1_0000_0000,
        0x7fff_ffff_ffff_ffff,
        0x8000_0000_0000_0000,
        0xdead_beef_cafe_f00d,
        u64::MAX,
    ];
    for v in samples {
        assert_eq!(<u64 as Data>::from_le_bytes(&Data::to_le_bytes(v)), Ok(v));
        assert_eq!(<u64 as Data>::from_be_bytes(&Data::to_be_bytes(v)), Ok(v));
        let s = v as i64;
        assert_eq!(<i64 as Data>::from_le_bytes(&Data::to_le_bytes(s)), Ok(s));
        assert_eq!(<i64 as Data>::from_be_bytes(&Data::to_be_bytes(s)), Ok(s));
        let w = v as u32;
        assert_eq!(<u32 as Data>::from_le_bytes(&Data::to_le_bytes(w)), Ok(w));
        assert_eq!(<u32 as Data>::from_be_bytes(&Data::to_be_bytes(w)), Ok(w));
        let t = v as i32;
        assert_eq!(<i32 as Data>::from_le_bytes(&Data::to_le_bytes(t)), Ok(t));
        assert_eq!(<i32 as Data>::from_be_bytes(&Data::to_be_bytes(t)), Ok(t));
        let f = Binary32::from_bits(w);
        assert_eq!(<Binary32 as Data>::from_le_bytes(&Data::to_le_bytes(f)), Ok(f));
        assert_eq!(<Binary32 as Data>::from_be_bytes(&Data::to_be_bytes(f)), Ok(f));
        let d = Binary64::from_bits(v);
        assert_eq!(<Binary64 as Data>::from_le_bytes(&Data::to_le_bytes(d)), Ok(d));
        assert_eq!(<Binary64 as Data>::from_be_bytes(&Data::to_be_bytes(d)), Ok(d));
    }
}

#[test]
fn byte_forms_agree_with_the_machine_representation() {
    let samples = [0i64, 1, -1, 0x1234_5678_9abc_def0, i64::MIN, i64::MAX, -0x0300_0000];
    for v in samples {
        assert_eq!(Data::to_le_bytes(v), v.to_le_bytes().to_vec());
        assert_eq!(Data::to_be_bytes(v), v.to_be_bytes().to_vec());
        assert_eq!(Data::to_le_bytes(v as u64), (v as u64).to_le_bytes().to_vec());
        assert_eq!(Data::to_be_bytes(v as u64), (v as u64).to_be_bytes().to_vec());
        assert_eq!(Data::to_le_bytes(v as i32), (v as i32).to_le_bytes().to_vec());
        assert_eq!(Data::to_be_bytes(v as i32), (v as i32).to_be_bytes().to_vec());
        assert_eq!(Data::to_le_bytes(v as u32), (v as u32).to_le_bytes().to_vec());
        assert_eq!(Data::to_be_bytes(v as u32), (v as u32).to_be_bytes().to_vec());
        assert_eq!(Data::to_le_bytes(v as i16), (v as i16).to_le_bytes().to_vec());
        assert_eq!(Data::to_be_bytes(v as u16), (v as u16).to_be_bytes().to_vec());
        assert_eq!(<i64 as Data>::from_le_bytes(&v.to_le_bytes()), Ok(v));
        assert_eq!(<i64 as Data>::from_be_bytes(&v.to_be_bytes()), Ok(v));
        assert_eq!(<i32 as Data>::from_le_bytes(&(v as i32).to_le_bytes()), Ok(v as i32));
        assert_eq!(<u16 as Data>::from_be_bytes(&(v as u16).to_be_bytes()), Ok(v as u16));
    }
}
