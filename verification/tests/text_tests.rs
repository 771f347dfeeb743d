use home_menu_extdata::text::{
    decode_utf16, read_text, read_units, trimmed_len, TextDecodeError, Utf16,
};

fn le_bytes(units: &[u16]) -> Vec<u8> {
    let mut b = Vec::new();
    for u in units {
        b.extend_from_slice(&u.to_le_bytes());
    }
    b
}

#[test]
fn nul_padded_text_is_trimmed() {
    let bytes: [u8; 8] = *b"A\0B\0\0\0\0\0";
    assert_eq!(bytes.read_utf16(), Ok(String::from("AB")));
    assert_eq!((&bytes).read_utf16(), Ok(String::from("AB")));
    assert_eq!(read_text(&bytes), Ok(String::from("AB")));
}

#[test]
fn text_that_fills_the_block_is_kept_whole() {
    let bytes: [u8; 4] = *b"A\0B\0";
    assert_eq!(bytes.read_utf16(), Ok(String::from("AB")));
}

#[test]
fn an_empty_or_all_nul_block_is_empty_text() {
    let none: [u8; 0] = [];
    assert_eq!(none.read_utf16(), Ok(String::new()));
    assert_eq!([0u8; 0x80].read_utf16(), Ok(String::new()));
}

#[test]
fn a_nul_inside_the_text_stays() {
    let bytes: [u8; 8] = *b"A\0\0\0B\0\0\0";
    assert_eq!(bytes.read_utf16(), Ok(String::from("A\0B")));
}

#[test]
fn a_last_odd_byte_belongs_to_no_unit() {
    let bytes: [u8; 5] = *b"A\0B\0C";
    assert_eq!(bytes.read_utf16(), Ok(String::from("AB")));
    assert_eq!(read_units(&bytes), vec![0x41, 0x42]);
    assert_eq!(read_text(&[0x41]), Ok(String::new()));
}

#[test]
fn units_are_read_low_byte_first() {
    assert_eq!(read_units(&[0x34, 0x12, 0xAC, 0x20]), vec![0x1234, 0x20AC]);
    assert_eq!(read_text(&[0xAC, 0x20, 0, 0]), Ok(String::from("\u{20AC}")));
}

#[test]
fn trimming_stops_at_the_last_unit_that_is_not_nul() {
    assert_eq!(trimmed_len(&[]), 0);
    assert_eq!(trimmed_len(&[0, 0, 0]), 0);
    assert_eq!(trimmed_len(&[0x41, 0, 0]), 1);
    assert_eq!(trimmed_len(&[0, 0x41, 0]), 2);
    assert_eq!(trimmed_len(&[0x41, 0x42]), 2);
}

#[test]
fn surrogate_pairs_are_one_character() {
    assert_eq!(decode_utf16(&[0xD83D, 0xDE00]), Ok(String::from("\u{1F600}")));
    assert_eq!(decode_utf16(&[0xD800, 0xDC00]), Ok(String::from("\u{10000}")));
    assert_eq!(decode_utf16(&[0xDBFF, 0xDFFF]), Ok(String::from("\u{10FFFF}")));
    assert_eq!(
        decode_utf16(&[0x41, 0xD834, 0xDD1E, 0x42]),
        Ok(String::from("A\u{1D11E}B"))
    );
}

#[test]
fn a_surrogate_that_stands_alone_is_an_error() {
    assert_eq!(decode_utf16(&[0xD800]), Err(TextDecodeError { unit: 0 }));
    assert_eq!(decode_utf16(&[0xDC00]), Err(TextDecodeError { unit: 0 }));
    assert_eq!(decode_utf16(&[0x41, 0xDFFF, 0x42]), Err(TextDecodeError { unit: 1 }));
    assert_eq!(decode_utf16(&[0x41, 0xD800, 0x42]), Err(TextDecodeError { unit: 1 }));
    assert_eq!(decode_utf16(&[0xD800, 0xD800, 0xDC00]), Err(TextDecodeError { unit: 0 }));
    assert_eq!(decode_utf16(&[0xD83D, 0xDE00, 0xDE00]), Err(TextDecodeError { unit: 2 }));
    assert_eq!(decode_utf16(&[0x41, 0x42, 0xDBFF]), Err(TextDecodeError { unit: 2 }));
}

#[test]
fn a_lead_before_the_padding_is_an_error() {
    let bytes = le_bytes(&[0x41, 0xD83D, 0, 0]);
    assert_eq!(read_text(&bytes), Err(TextDecodeError { unit: 1 }));
    let bytes: [u8; 4] = [0x00, 0xDC, 0, 0];
    assert_eq!(bytes.read_utf16(), Err(TextDecodeError { unit: 0 }));
}

#[test]
fn the_boundaries_of_the_surrogate_range() {
    assert_eq!(decode_utf16(&[0xD7FF]), Ok(String::from("\u{D7FF}")));
    assert_eq!(decode_utf16(&[0xE000]), Ok(String::from("\u{E000}")));
    assert_eq!(decode_utf16(&[0xFFFF]), Ok(String::from("\u{FFFF}")));
    assert_eq!(decode_utf16(&[0]), Ok(String::from("\0")));
    assert!(decode_utf16(&[0xDBFF]).is_err());
    assert!(decode_utf16(&[0xDFFF]).is_err());
}

#[test]
fn decoding_agrees_with_std() {
    let pool: [u16; 12] = [
        0x0000, 0x0041, 0x00E9, 0x3042, 0xD7FF, 0xD800, 0xDBFF, 0xDC00, 0xDFFF, 0xE000, 0xFFFF,
        0xD83D,
    ];
    let mut seed: u32 = 0x1234_5678;
    for round in 0..4000 {
        let len = round % 7;
        let mut units = Vec::new();
        for _ in 0..len {
            seed = seed.wrapping_mul(1_664_525).wrapping_add(1_013_904_223);
            units.push(pool[(seed >> 16) as usize % pool.len()]);
        }
        let ours = decode_utf16(&units).ok();
        let theirs = String::from_utf16(&units).ok();
        assert_eq!(ours, theirs);
    }
}

#[test]
fn every_single_unit_agrees_with_std() {
    for u in 0..=u16::MAX {
        assert_eq!(decode_utf16(&[u]).ok(), String::from_utf16(&[u]).ok());
    }
}

#[test]
fn every_pair_of_surrogates_agrees_with_std() {
    for lead in (0xD800u16..=0xDBFF).step_by(37) {
        for trail in (0xDC00u16..=0xDFFF).step_by(41) {
            assert_eq!(
                decode_utf16(&[lead, trail]).ok(),
                String::from_utf16(&[lead, trail]).ok()
            );
            assert!(decode_utf16(&[trail, lead]).is_err());
        }
    }
}

#[test]
fn a_japanese_name() {
    let name = "\u{30DE}\u{30EA}\u{30AA}";
    let units: Vec<u16> = name.encode_utf16().collect();
    let mut block = [0u8; 0x80];
    block[..units.len() * 2].copy_from_slice(&le_bytes(&units));
    assert_eq!(block.read_utf16(), Ok(String::from(name)));
}
