use home_menu_extdata::endian::{
    push_bytes, push_flags, push_i16, push_i16s, push_i8s, push_u16, push_u32, push_u32s, push_u64,
    push_u64s, read_array, read_flag_array, read_i16, read_i16_array, read_i8_array, read_u16,
    read_u32, read_u32_array, read_u64, read_u64_array, to_signed16, to_signed8, to_unsigned16,
    to_unsigned8,
};

#[test]
fn reads_unsigned_values_low_byte_first() {
    let bytes = [0x78u8, 0x56, 0x34, 0x12, 0x00, 0x00, 0x04, 0x00, 0xFF];
    assert_eq!(read_u16(&bytes, 0), 0x5678);
    assert_eq!(read_u16(&bytes, 1), 0x3456);
    assert_eq!(read_u32(&bytes, 0), 0x1234_5678);
    assert_eq!(read_u32(&bytes, 4), 0x0004_0000);
    assert_eq!(read_u64(&bytes, 0), 0x0004_0000_1234_5678);
    assert_eq!(read_u64(&bytes, 1), 0xFF00_0400_0012_3456);
}

#[test]
fn reads_agree_with_std() {
    let bytes = [0xEFu8, 0xCD, 0xAB, 0x89, 0x67, 0x45, 0x23, 0x01];
    assert_eq!(read_u16(&bytes, 2), u16::from_le_bytes([0xAB, 0x89]));
    assert_eq!(read_u32(&bytes, 3), u32::from_le_bytes([0x89, 0x67, 0x45, 0x23]));
    assert_eq!(read_u64(&bytes, 0), u64::from_le_bytes(bytes));
    assert_eq!(read_i16(&bytes, 0), i16::from_le_bytes([0xEF, 0xCD]));
}

#[test]
fn reads_extreme_values() {
    let ones = [0xFFu8; 8];
    assert_eq!(read_u16(&ones, 0), u16::MAX);
    assert_eq!(read_u32(&ones, 0), u32::MAX);
    assert_eq!(read_u64(&ones, 0), u64::MAX);
    assert_eq!(read_i16(&ones, 0), -1);
    let zeros = [0u8; 8];
    assert_eq!(read_u64(&zeros, 0), 0);
    assert_eq!(read_i16(&zeros, 0), 0);
}

#[test]
fn signed_readings_are_twos_complement() {
    assert_eq!(to_signed16(0x7FFF), i16::MAX);
    assert_eq!(to_signed16(0x8000), i16::MIN);
    assert_eq!(to_signed16(0xFFFE), -2);
    assert_eq!(to_unsigned16(-2), 0xFFFE);
    assert_eq!(to_unsigned16(i16::MIN), 0x8000);
    assert_eq!(to_unsigned16(5), 5);
    assert_eq!(to_signed8(0x7F), i8::MAX);
    assert_eq!(to_signed8(0x80), i8::MIN);
    assert_eq!(to_signed8(0xFF), -1);
    assert_eq!(to_unsigned8(-1), 0xFF);
    assert_eq!(to_unsigned8(i8::MIN), 0x80);
    assert_eq!(to_unsigned8(9), 9);
}

#[test]
fn signed_readings_round_trip_for_every_pattern() {
    for u in 0..=u16::MAX {
        assert_eq!(to_unsigned16(to_signed16(u)), u);
        assert_eq!(to_signed16(u), u as i16);
    }
    for u in 0..=u8::MAX {
        assert_eq!(to_unsigned8(to_signed8(u)), u);
        assert_eq!(to_signed8(u), u as i8);
    }
}

#[test]
fn writes_unsigned_values_low_byte_first() {
    let mut out = vec![0xAAu8];
    push_u16(&mut out, 0x5678);
    push_u32(&mut out, 0x0004_0000);
    push_u64(&mut out, 0x0102_0304_0506_0708);
    push_i16(&mut out, -2);
    assert_eq!(
        out,
        vec![
            0xAA, 0x78, 0x56, 0x00, 0x00, 0x04, 0x00, 0x08, 0x07, 0x06, 0x05, 0x04, 0x03, 0x02,
            0x01, 0xFE, 0xFF
        ]
    );
}

#[test]
fn written_values_read_back() {
    let values = [0u64, 1, 0xFF, 0x100, 0x0004_0000_1234_5678, u64::MAX, 0x8000_0000_0000_0000];
    for v in values {
        let mut out = Vec::new();
        push_u64(&mut out, v);
        assert_eq!(out, v.to_le_bytes().to_vec());
        assert_eq!(read_u64(&out, 0), v);
    }
    for v in [0u32, 0xFFFF, 0x1_0000, u32::MAX, 0xDEAD_BEEF] {
        let mut out = Vec::new();
        push_u32(&mut out, v);
        assert_eq!(out, v.to_le_bytes().to_vec());
        assert_eq!(read_u32(&out, 0), v);
    }
    for v in [0u16, 0xFF, 0x100, u16::MAX] {
        let mut out = Vec::new();
        push_u16(&mut out, v);
        assert_eq!(out, v.to_le_bytes().to_vec());
        assert_eq!(read_u16(&out, 0), v);
    }
}

#[test]
fn reads_arrays_at_an_offset() {
    let bytes: Vec<u8> = (0u8..32).collect();
    let a: [u8; 5] = read_array::<5>(&bytes, 3);
    assert_eq!(a, [3, 4, 5, 6, 7]);
    let none: [u8; 0] = read_array::<0>(&bytes, 32);
    assert_eq!(none.len(), 0);
    let q: [u64; 2] = read_u64_array::<2>(&bytes, 8);
    assert_eq!(q, [0x0F0E_0D0C_0B0A_0908, 0x1716_1514_1312_1110]);
    let w: [u32; 2] = read_u32_array::<2>(&bytes, 1);
    assert_eq!(w, [0x0403_0201, 0x0807_0605]);
    let h: [i16; 3] = read_i16_array::<3>(&[0xFF, 0xFF, 0x01, 0x00, 0x00, 0x80], 0);
    assert_eq!(h, [-1, 1, i16::MIN]);
    let s: [i8; 3] = read_i8_array::<3>(&[0x00, 0x7F, 0x80, 0xFF], 1);
    assert_eq!(s, [127, -128, -1]);
}

#[test]
fn any_non_zero_byte_is_a_set_flag() {
    let f: [bool; 4] = read_flag_array::<4>(&[0, 1, 2, 0xFF], 0);
    assert_eq!(f, [false, true, true, true]);
}

#[test]
fn writes_runs_of_values() {
    let mut out = Vec::new();
    push_u64s(&mut out, &[1, 0x0004_0000_0000_0002]);
    push_u32s(&mut out, &[0xDEAD_BEEF]);
    push_i16s(&mut out, &[-1, 2]);
    push_i8s(&mut out, &[-1, 3]);
    push_flags(&mut out, &[true, false]);
    push_bytes(&mut out, &[9, 8]);
    assert_eq!(
        out,
        vec![
            1, 0, 0, 0, 0, 0, 0, 0, 2, 0, 0, 0, 0, 0, 4, 0, 0xEF, 0xBE, 0xAD, 0xDE, 0xFF, 0xFF, 2,
            0, 0xFF, 3, 1, 0, 9, 8
        ]
    );
}

#[test]
fn empty_runs_write_nothing() {
    let mut out = vec![7u8];
    push_u64s(&mut out, &[]);
    push_u32s(&mut out, &[]);
    push_i16s(&mut out, &[]);
    push_i8s(&mut out, &[]);
    push_flags(&mut out, &[]);
    push_bytes(&mut out, &[]);
    assert_eq!(out, vec![7u8]);
}
