use home_menu_extdata::home_menu::{CacheDat, Icon, SaveData};
use home_menu_extdata::listing::{
    entry_line, entry_name, format_title_id, hex_digit_char, list_entry, FrameAction, Listing, Page,
    PAGE_SIZE,
};
use home_menu_extdata::text::TextDecodeError;
use home_menu_extdata::titles::cross_reference;
use home_menu_extdata::validate::{FormatCheck, FormatMismatch, StructureKind};

fn utf16le(s: &str) -> Vec<u8> {
    let mut b = Vec::new();
    for u in s.encode_utf16() {
        b.extend_from_slice(&u.to_le_bytes());
    }
    b
}

fn put_short_english_name(atlas: &mut [u8], pos: usize, name: &[u8]) {
    let at = pos * 0x36C0 + 0x208;
    atlas[at..at + name.len()].copy_from_slice(name);
}

#[test]
fn identifiers_are_sixteen_lower_case_digits() {
    assert_eq!(format_title_id(0x0004_0000_1234_5678), "0004000012345678");
    assert_eq!(format_title_id(0), "0000000000000000");
    assert_eq!(format_title_id(u64::MAX), "ffffffffffffffff");
    assert_eq!(format_title_id(0xABCD_EF01_2345_6789), "abcdef0123456789");
    assert_eq!(format_title_id(0x1), "0000000000000001");
    assert_eq!(format_title_id(0x8000_0000_0000_0000), "8000000000000000");
}

#[test]
fn identifiers_agree_with_std_formatting() {
    let mut x: u64 = 0x9E37_79B9_7F4A_7C15;
    for _ in 0..2000 {
        x = x.wrapping_mul(6_364_136_223_846_793_005).wrapping_add(1_442_695_040_888_963_407);
        assert_eq!(format_title_id(x), format!("{x:016x}"));
        assert_eq!(format_title_id(x >> 40), format!("{:016x}", x >> 40));
    }
}

#[test]
fn hexadecimal_digit_characters() {
    let want = "0123456789abcdef";
    for (d, c) in want.chars().enumerate() {
        assert_eq!(hex_digit_char(d as u8), c);
    }
}

#[test]
fn a_line_is_identifier_dash_name() {
    assert_eq!(
        entry_line(0x0004_0000_1234_5678, &Ok(String::from("Mario Kart 7"))),
        "0004000012345678 - Mario Kart 7"
    );
    assert_eq!(entry_line(7, &Ok(String::new())), "0000000000000007 - ");
}

#[test]
fn an_unreadable_name_gets_a_placeholder() {
    assert_eq!(
        entry_line(0x0004_0000_1234_5678, &Err(TextDecodeError { unit: 3 })),
        "0004000012345678 - <unreadable name>"
    );
}

#[test]
fn the_name_is_the_short_english_title() {
    let mut record = vec![0u8; 0x36C0];
    record[0x8..0x8 + 4].copy_from_slice(&utf16le("JP"));
    record[0x208..0x208 + 10].copy_from_slice(&utf16le("Short"));
    record[0x288..0x288 + 8].copy_from_slice(&utf16le("Long"));
    record[0x408..0x408 + 4].copy_from_slice(&utf16le("FR"));
    let icon = Icon::from_bytes(&record).unwrap();
    assert_eq!(entry_name(&icon), Ok(String::from("Short")));
    assert_eq!(icon.ctr().title_en.short[..10], utf16le("Short")[..]);
}

#[test]
fn a_name_that_fills_its_block() {
    let mut record = vec![0u8; 0x36C0];
    let name: String = "x".repeat(0x40);
    record[0x208..0x288].copy_from_slice(&utf16le(&name));
    record[0x288] = b'L';
    assert_eq!(entry_name(&Icon::from_bytes(&record).unwrap()), Ok(name));
}

#[test]
fn a_broken_name_is_an_error_of_that_record_only() {
    let mut record = vec![0u8; 0x36C0];
    record[0x208..0x20C].copy_from_slice(&[0x41, 0x00, 0x00, 0xD8]);
    let icon = Icon::from_bytes(&record).unwrap();
    assert_eq!(entry_name(&icon), Err(TextDecodeError { unit: 1 }));
}

#[test]
fn end_to_end_listing_of_one_title() {
    let id: u64 = 0x0004_0000_1234_5678;
    let mut save = vec![0u8; 0x2DA0];
    save[0] = 4;
    save[8 + 8 * 5..16 + 8 * 5].copy_from_slice(&id.to_le_bytes());
    let mut cache = vec![0u8; 0x1688];
    for i in 0..360usize {
        let at = 8 + 16 * i;
        cache[at..at + 8].copy_from_slice(&(0x0004_0000_AAAA_0000u64 + i as u64).to_le_bytes());
    }
    cache[8 + 16 * 3..16 + 16 * 3].copy_from_slice(&id.to_le_bytes());
    let mut atlas = vec![0u8; 360 * 0x36C0];
    put_short_english_name(&mut atlas, 0, &utf16le("Wrong title"));
    put_short_english_name(&mut atlas, 3, &utf16le("Mario Kart 7"));
    put_short_english_name(&mut atlas, 4, &utf16le("Another title"));

    let save = SaveData::parse(&save).unwrap();
    let cache = CacheDat::decode(&cache).unwrap();
    let titles = cross_reference(&save, &[0x1234_5678]);
    assert_eq!(titles, vec![id]);
    assert_eq!(cache.position(id), 3);
    let lines: Vec<String> =
        titles.iter().map(|t| list_entry(*t, &cache, &atlas).unwrap()).collect();
    assert_eq!(lines, vec![String::from("0004000012345678 - Mario Kart 7")]);
}

#[test]
fn a_title_missing_from_the_cache_shows_the_name_at_place_zero() {
    let cache = CacheDat::decode(&vec![0xFFu8; 0x1688]).unwrap();
    let mut atlas = vec![0u8; 360 * 0x36C0];
    put_short_english_name(&mut atlas, 0, &utf16le("First"));
    assert_eq!(
        list_entry(0x0004_0000_0000_0001, &cache, &atlas),
        Ok(String::from("0004000000000001 - First"))
    );
}

#[test]
fn a_broken_name_does_not_stop_the_listing() {
    let cache = CacheDat::decode(&vec![0u8; 0x1688]).unwrap();
    let mut atlas = vec![0u8; 360 * 0x36C0];
    put_short_english_name(&mut atlas, 0, &[0x00, 0xDC]);
    assert_eq!(
        list_entry(0, &cache, &atlas),
        Ok(String::from("0000000000000000 - <unreadable name>"))
    );
}

#[test]
fn listing_from_an_atlas_of_the_wrong_size_is_reported() {
    let cache = CacheDat::decode(&vec![0u8; 0x1688]).unwrap();
    assert_eq!(
        list_entry(0, &cache, &vec![0u8; 0x36C0]),
        Err(FormatMismatch {
            check: FormatCheck::Size(StructureKind::CacheDDat),
            expected: 5_045_760,
            actual: 0x36C0,
        })
    );
}

#[test]
fn pages_of_ten() {
    assert_eq!(PAGE_SIZE, 10);
    let mut l = Listing::new((0..25u64).collect());
    assert_eq!(l.len(), 25);
    assert_eq!(l.title(24), 24);
    assert_eq!(l.on_frame(false, false), FrameAction { page: None, exit: false });
    assert_eq!(
        l.on_frame(true, false),
        FrameAction { page: Some(Page { from: 0, to: 10 }), exit: false }
    );
    assert_eq!(l.on_frame(false, false), FrameAction { page: None, exit: false });
    assert_eq!(
        l.on_frame(true, false),
        FrameAction { page: Some(Page { from: 10, to: 20 }), exit: false }
    );
    assert_eq!(
        l.on_frame(true, false),
        FrameAction { page: Some(Page { from: 20, to: 25 }), exit: false }
    );
    assert_eq!(l.on_frame(true, false), FrameAction { page: None, exit: false });
    assert_eq!(l.on_frame(true, true), FrameAction { page: None, exit: true });
}

#[test]
fn page_and_exit_in_one_frame() {
    let mut l = Listing::new(vec![1, 2, 3]);
    assert_eq!(
        l.on_frame(true, true),
        FrameAction { page: Some(Page { from: 0, to: 3 }), exit: true }
    );
}

#[test]
fn a_listing_of_exactly_one_page() {
    let mut l = Listing::new((0..10u64).collect());
    assert_eq!(
        l.on_frame(true, false),
        FrameAction { page: Some(Page { from: 0, to: 10 }), exit: false }
    );
    assert_eq!(l.on_frame(true, false), FrameAction { page: None, exit: false });
}

#[test]
fn an_empty_listing_has_no_page() {
    let mut l = Listing::new(Vec::new());
    assert_eq!(l.len(), 0);
    assert_eq!(l.on_frame(true, false), FrameAction { page: None, exit: false });
    assert_eq!(l.on_frame(false, true), FrameAction { page: None, exit: true });
}

#[test]
fn titles_left_to_show() {
    let mut l = Listing::new((0..25u64).collect());
    assert_eq!(l.remaining(), 25);
    l.on_frame(true, false);
    assert_eq!(l.remaining(), 15);
    l.on_frame(false, false);
    assert_eq!(l.remaining(), 15);
    l.on_frame(true, false);
    l.on_frame(true, false);
    assert_eq!(l.remaining(), 0);
    l.on_frame(true, false);
    assert_eq!(l.remaining(), 0);
}
