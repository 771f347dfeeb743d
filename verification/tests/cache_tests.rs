use home_menu_extdata::home_menu::{CacheDat, CacheDatEntry};
use home_menu_extdata::validate::{FormatCheck, FormatMismatch, StructureKind};

fn cache_bytes(ids: &[(usize, u64)]) -> Vec<u8> {
    let mut b = vec![0u8; 0x1688];
    b[0] = 2;
    for k in 1..8 {
        b[k] = 0xF0 + k as u8;
    }
    for i in 0..360 {
        let at = 8 + 16 * i;
        b[at..at + 8].copy_from_slice(&(0x0004_0000_0000_1000u64 + i as u64).to_le_bytes());
        b[at + 8..at + 12].copy_from_slice(&(i as u32).to_le_bytes());
        b[at + 12..at + 16].copy_from_slice(&(0xFFFF_FFFFu32 - i as u32).to_le_bytes());
    }
    for &(i, id) in ids {
        let at = 8 + 16 * i;
        b[at..at + 8].copy_from_slice(&id.to_le_bytes());
    }
    b
}

#[test]
fn decodes_entries_in_place_order() {
    let b = cache_bytes(&[(3, 0x0004_0000_1234_5678)]);
    let c = CacheDat::decode(&b).unwrap();
    assert_eq!(c.format_ver, 2);
    assert_eq!(c.pad, [0xF1, 0xF2, 0xF3, 0xF4, 0xF5, 0xF6, 0xF7]);
    assert_eq!(
        c.entries[0],
        CacheDatEntry { titleid: 0x0004_0000_0000_1000, unk: [0, 0xFFFF_FFFF] }
    );
    assert_eq!(
        c.entries[3],
        CacheDatEntry { titleid: 0x0004_0000_1234_5678, unk: [3, 0xFFFF_FFFC] }
    );
    assert_eq!(
        c.entries[359],
        CacheDatEntry { titleid: 0x0004_0000_0000_1167, unk: [359, 0xFFFF_FFFF - 359] }
    );
}

#[test]
fn the_format_version_is_not_judged() {
    for v in [0u8, 1, 255] {
        let mut b = cache_bytes(&[]);
        b[0] = v;
        assert_eq!(CacheDat::decode(&b).unwrap().format_ver, v);
    }
}

#[test]
fn cache_decode_then_encode_gives_the_bytes_back() {
    let b = cache_bytes(&[(3, 0x0004_0000_1234_5678), (359, u64::MAX)]);
    let c = CacheDat::decode(&b).unwrap();
    assert_eq!(c.encode(), b);
    assert_eq!(CacheDat::decode(&c.encode()).unwrap(), c);
}

#[test]
fn cache_of_a_wrong_size_is_reported() {
    for len in [0usize, 0x1687, 0x1689, 0x2DA0] {
        assert_eq!(
            CacheDat::decode(&vec![0u8; len]),
            Err(FormatMismatch {
                check: FormatCheck::Size(StructureKind::CacheDat),
                expected: 0x1688,
                actual: len as u64,
            })
        );
    }
}

#[test]
fn position_is_the_place_of_the_entry() {
    let c = CacheDat::decode(&cache_bytes(&[(3, 0x0004_0000_1234_5678)])).unwrap();
    assert_eq!(c.position(0x0004_0000_1234_5678), 3);
    assert_eq!(c.find(0x0004_0000_1234_5678), Some(3));
    assert_eq!(c.position(0x0004_0000_0000_1000), 0);
    assert_eq!(c.find(0x0004_0000_0000_1000), Some(0));
    assert_eq!(c.position(0x0004_0000_0000_1167), 359);
    assert_eq!(c.find(0x0004_0000_0000_1167), Some(359));
}

#[test]
fn position_is_the_first_place_of_a_repeated_title() {
    let id = 0x0004_0000_0BAD_CAFE;
    let c = CacheDat::decode(&cache_bytes(&[(7, id), (2, id), (300, id)])).unwrap();
    assert_eq!(c.position(id), 2);
    assert_eq!(c.find(id), Some(2));
}

#[test]
fn an_absent_title_is_at_place_zero() {
    let c = CacheDat::decode(&cache_bytes(&[])).unwrap();
    assert_eq!(c.position(0x0004_0000_FFFF_FFFF), 0);
    assert_eq!(c.position(0), 0);
    assert_eq!(c.position(u64::MAX), 0);
    assert_eq!(c.find(0x0004_0000_FFFF_FFFF), None);
    assert_eq!(c.find(0), None);
}

#[test]
fn an_empty_cache_finds_the_empty_title_first() {
    let c = CacheDat::decode(&vec![0u8; 0x1688]).unwrap();
    assert_eq!(c.position(0), 0);
    assert_eq!(c.find(0), Some(0));
    assert_eq!(c.find(1), None);
}

#[test]
fn cache_entry_reads_and_writes_sixteen_bytes() {
    let mut bytes = vec![0xEEu8];
    bytes.extend_from_slice(&0x0004_0000_1234_5678u64.to_le_bytes());
    bytes.extend_from_slice(&0x1122_3344u32.to_le_bytes());
    bytes.extend_from_slice(&0x5566_7788u32.to_le_bytes());
    let e = CacheDatEntry::read(&bytes, 1);
    assert_eq!(
        e,
        CacheDatEntry { titleid: 0x0004_0000_1234_5678, unk: [0x1122_3344, 0x5566_7788] }
    );
    let mut out = vec![0xEEu8];
    e.write(&mut out);
    assert_eq!(out, bytes);
}
