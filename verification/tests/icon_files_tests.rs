use home_menu_extdata::icon_files::{
    collect_icon_ids, hex_digit, parse_hex_u32, parse_icon_file_name,
};

#[test]
fn hexadecimal_names_are_icon_files() {
    assert_eq!(parse_icon_file_name(b"12345678.icn"), Some(0x1234_5678));
    assert_eq!(parse_icon_file_name(b"0.icn"), Some(0));
    assert_eq!(parse_icon_file_name(b"f.icn"), Some(15));
    assert_eq!(parse_icon_file_name(b"F.icn"), Some(15));
    assert_eq!(parse_icon_file_name(b"DeadBeef.icn"), Some(0xDEAD_BEEF));
    assert_eq!(parse_icon_file_name(b"ffffffff.icn"), Some(u32::MAX));
    assert_eq!(parse_icon_file_name(b"00021000.icn"), Some(0x0002_1000));
    assert_eq!(parse_icon_file_name(b"abcdef.icn"), Some(0xAB_CDEF));
    assert_eq!(parse_icon_file_name(b"ABCDEF.icn"), Some(0xAB_CDEF));
    assert_eq!(parse_icon_file_name(b"0123456789.icn"), None);
}

#[test]
fn leading_zeros_do_not_count_against_the_width() {
    assert_eq!(parse_icon_file_name(b"000000000000001A.icn"), Some(0x1A));
    assert_eq!(parse_icon_file_name(b"0FFFFFFFF.icn"), Some(u32::MAX));
}

#[test]
fn more_than_32_bits_name_no_icon() {
    assert_eq!(parse_icon_file_name(b"100000000.icn"), None);
    assert_eq!(parse_icon_file_name(b"FFFFFFFFF.icn"), None);
    assert_eq!(parse_icon_file_name(b"123456789ABCDEF0123.icn"), None);
}

#[test]
fn other_names_are_passed_over() {
    let names: [&[u8]; 22] = [
        b"",
        b".icn",
        b"icn",
        b"12345678",
        b"12345678.",
        b"12345678.ic",
        b"12345678.ICN",
        b"12345678.Icn",
        b"12345678.icns",
        b"12345678.icn ",
        b"12345678.bin",
        b"12345678.icn.bak",
        b"1234.5678.icn",
        b"+1A.icn",
        b"-1A.icn",
        b"0x1A.icn",
        b"1G.icn",
        b" 1A.icn",
        b"1A .icn",
        b"1A/.icn",
        b"1A@.icn",
        b"1A`.icn",
    ];
    for n in names {
        assert_eq!(parse_icon_file_name(n), None);
    }
}

#[test]
fn digits_and_their_values() {
    let digits = b"0123456789ABCDEFabcdef";
    let values = [0u8, 1, 2, 3, 4, 5, 6, 7, 8, 9, 10, 11, 12, 13, 14, 15, 10, 11, 12, 13, 14, 15];
    for (d, v) in digits.iter().zip(values) {
        assert_eq!(hex_digit(*d), Some(v));
    }
    for b in 0..=u8::MAX {
        assert_eq!(hex_digit(b).is_some(), (b as char).is_ascii_hexdigit());
    }
}

#[test]
fn parses_hexadecimal_numbers() {
    assert_eq!(parse_hex_u32(b""), Some(0));
    assert_eq!(parse_hex_u32(b"10"), Some(16));
    assert_eq!(parse_hex_u32(b"7fffFFFF"), Some(0x7FFF_FFFF));
    assert_eq!(parse_hex_u32(b"100000000"), None);
    assert_eq!(parse_hex_u32(b"12x"), None);
    assert_eq!(parse_hex_u32(b"x12"), None);
}

#[test]
fn parsing_agrees_with_std_on_plain_digits() {
    let samples = [
        "0",
        "1",
        "a",
        "A",
        "ff",
        "1000",
        "DEADBEEF",
        "deadbeef",
        "FFFFFFFF",
        "100000000",
        "00000000000",
    ];
    for s in samples {
        assert_eq!(parse_hex_u32(s.as_bytes()), u32::from_str_radix(s, 16).ok());
    }
}

#[test]
fn collects_the_icons_of_a_folder_in_order() {
    let names: Vec<Vec<u8>> = vec![
        b"00021000.icn".to_vec(),
        b"readme.txt".to_vec(),
        b"12345678.icn".to_vec(),
        b"12345678.icn".to_vec(),
        b"zz.icn".to_vec(),
        b"A.icn".to_vec(),
    ];
    assert_eq!(collect_icon_ids(&names), vec![0x0002_1000, 0x1234_5678, 0x1234_5678, 0xA]);
    assert_eq!(collect_icon_ids(&Vec::new()), Vec::<u32>::new());
}
