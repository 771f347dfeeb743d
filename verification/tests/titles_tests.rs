use home_menu_extdata::home_menu::SaveData;
use home_menu_extdata::titles::{
    cross_reference, cross_reference_slots, has_icon, title_category, title_icon_id,
    APPLICATION_CATEGORY,
};

fn save_with(titles: &[u64]) -> SaveData {
    let mut b = vec![0u8; 0x2DA0];
    b[0] = 4;
    for (i, t) in titles.iter().enumerate() {
        b[8 + 8 * i..16 + 8 * i].copy_from_slice(&t.to_le_bytes());
    }
    SaveData::parse(&b).unwrap()
}

#[test]
fn halves_of_a_title_identifier() {
    assert_eq!(APPLICATION_CATEGORY, 0x0004_0000);
    assert_eq!(title_category(0x0004_0000_1234_5678), 0x0004_0000);
    assert_eq!(title_icon_id(0x0004_0000_1234_5678), 0x1234_5678);
    assert_eq!(title_category(0), 0);
    assert_eq!(title_icon_id(0), 0);
    assert_eq!(title_category(u64::MAX), u32::MAX);
    assert_eq!(title_icon_id(u64::MAX), u32::MAX);
    assert_eq!(title_category(0x0004_0010_0002_1000), 0x0004_0010);
    assert_eq!(title_icon_id(0xFFFF_FFFF_0000_0001), 1);
}

#[test]
fn listing_keeps_slot_order_and_repeats() {
    let slots = [0x0004_0000_1234_5678u64, 0, 0x0004_0000_1234_5678];
    let want = vec![0x0004_0000_1234_5678u64, 0x0004_0000_1234_5678];
    assert_eq!(cross_reference_slots(&slots, &[0x1234_5678]), want);
    assert_eq!(cross_reference(&save_with(&slots), &[0x1234_5678]), want);
}

#[test]
fn listing_follows_the_slots_not_the_icons() {
    let a = 0x0004_0000_0000_000Au64;
    let b = 0x0004_0000_0000_000Bu64;
    let c = 0x0004_0000_0000_000Cu64;
    assert_eq!(cross_reference_slots(&[c, a, b, a], &[0xA, 0xB, 0xC]), vec![c, a, b, a]);
    assert_eq!(cross_reference_slots(&[c, a, b, a], &[0xC, 0xB, 0xA, 0xA]), vec![c, a, b, a]);
    assert_eq!(cross_reference_slots(&[c, a, b, a], &[0xA]), vec![a, a]);
}

#[test]
fn other_categories_are_left_out() {
    let icons = [0x1234_5678u32, 0];
    let others = [
        0x0004_0010_1234_5678u64,
        0x0004_0001_1234_5678,
        0x0000_0000_1234_5678,
        0x0004_000E_1234_5678,
        0x8004_0000_1234_5678,
        0x0000_0004_1234_5678,
        0xFFFF_FFFF_1234_5678,
        0,
    ];
    assert_eq!(cross_reference_slots(&others, &icons), Vec::<u64>::new());
    let mut mixed = others.to_vec();
    mixed.insert(3, 0x0004_0000_1234_5678);
    assert_eq!(cross_reference_slots(&mixed, &icons), vec![0x0004_0000_1234_5678u64]);
    assert_eq!(cross_reference(&save_with(&mixed), &icons), vec![0x0004_0000_1234_5678u64]);
}

#[test]
fn titles_without_an_icon_file_are_left_out() {
    let slots = [0x0004_0000_0000_0001u64, 0x0004_0000_0000_0002, 0x0004_0000_0000_0003];
    assert_eq!(cross_reference_slots(&slots, &[]), Vec::<u64>::new());
    assert_eq!(cross_reference_slots(&slots, &[2]), vec![0x0004_0000_0000_0002u64]);
    assert_eq!(cross_reference_slots(&slots, &[4, 5]), Vec::<u64>::new());
}

#[test]
fn an_application_with_icon_zero_is_listed() {
    assert_eq!(
        cross_reference_slots(&[0x0004_0000_0000_0000, 0], &[0]),
        vec![0x0004_0000_0000_0000u64]
    );
}

#[test]
fn empty_inputs_give_an_empty_listing() {
    assert_eq!(cross_reference_slots(&[], &[1, 2]), Vec::<u64>::new());
    assert_eq!(cross_reference(&save_with(&[]), &[0]), Vec::<u64>::new());
}

#[test]
fn a_full_table_is_listed_whole() {
    let slots: Vec<u64> = (0..360u64).map(|i| 0x0004_0000_0000_0000 + i % 5).collect();
    let listed = cross_reference(&save_with(&slots), &[1, 3]);
    let want: Vec<u64> =
        slots.iter().copied().filter(|t| *t as u32 == 1 || *t as u32 == 3).collect();
    assert_eq!(listed.len(), 144);
    assert_eq!(listed, want);
}

#[test]
fn icon_lookup() {
    assert!(has_icon(&[1, 2, 3], 3));
    assert!(has_icon(&[1, 2, 3], 1));
    assert!(!has_icon(&[1, 2, 3], 4));
    assert!(!has_icon(&[], 0));
}
