use home_menu_extdata::home_menu::icon::{
    ICON_LARGE_OFFSET, ICON_SMALL_OFFSET, NULL_OFFSET, SETTINGS_OFFSET, TITLE_UNUSED_OFFSET,
};
use home_menu_extdata::home_menu::{
    get_cache_d_icon, icon_offset, AppSettings, AppTitles, AtlasError, CtrIcon, GameRatings, Icon,
    IconLayout, IconReading,
};
use home_menu_extdata::validate::{FormatCheck, FormatMismatch, StructureKind};

fn record_bytes(seed: usize) -> Vec<u8> {
    let mut b = vec![0u8; 0x36C0];
    for (i, x) in b.iter_mut().enumerate() {
        *x = ((i * 13 + seed) % 253) as u8;
    }
    b[0..4].copy_from_slice(b"SMDH");
    b
}

#[test]
fn icon_layout_offsets() {
    assert_eq!(TITLE_UNUSED_OFFSET, 8 + 12 * 0x200);
    assert_eq!(SETTINGS_OFFSET, 8 + 16 * 0x200);
    assert_eq!(NULL_OFFSET, SETTINGS_OFFSET + 0x30);
    assert_eq!(ICON_SMALL_OFFSET, NULL_OFFSET + 8);
    assert_eq!(ICON_LARGE_OFFSET, ICON_SMALL_OFFSET + 0x480);
    assert_eq!(ICON_LARGE_OFFSET + 0x1200, 0x36C0);
}

#[test]
fn rating_and_setting_constants() {
    assert_eq!(GameRatings::HAS_RATING, 0x80);
    assert_eq!(GameRatings::RATING_PENDING, 0x40);
    assert_eq!(GameRatings::NO_RESTRICTION, 0x20);
    assert_eq!(GameRatings::AGE_MASK, 0x1F);
    assert_eq!(AppSettings::REGION_JPN, 1);
    assert_eq!(AppSettings::REGION_USA, 2);
    assert_eq!(AppSettings::REGION_EUR, 4);
    assert_eq!(AppSettings::REGION_AUS, 8);
    assert_eq!(AppSettings::REGION_CHN, 0x10);
    assert_eq!(AppSettings::REGION_KOR, 0x20);
    assert_eq!(AppSettings::REGION_TWN, 0x40);
    assert_eq!(AppSettings::FLAGS_VISIBLE, 1);
    assert_eq!(AppSettings::FLAGS_AUTOBOOT, 2);
    assert_eq!(AppSettings::FLAGS_ALLOW_3D, 4);
    assert_eq!(AppSettings::FLAGS_REQUIRE_EULA, 8);
    assert_eq!(AppSettings::FLAGS_AUTOSAVE, 0x10);
    assert_eq!(AppSettings::FLAGS_EXBANNER, 0x20);
    assert_eq!(AppSettings::FLAGS_RATING_REQUIRED, 0x40);
    assert_eq!(AppSettings::FLAGS_HAS_SAVE, 0x80);
    assert_eq!(AppSettings::FLAGS_RECORD_USAGE, 0x100);
    assert_eq!(AppSettings::FLAGS_DISABLE_SAVE_BACKUP, 0x400);
    assert_eq!(AppSettings::FLAGS_N3DS_ONLY, 0x1000);
}

#[test]
fn decodes_a_rich_icon_field_by_field() {
    let b = record_bytes(5);
    let c = CtrIcon::decode(&b).unwrap();
    assert_eq!(&c.magic, b"SMDH");
    assert_eq!(c.version, u16::from_le_bytes([b[4], b[5]]));
    assert_eq!(c.reserved, u16::from_le_bytes([b[6], b[7]]));
    let titles = [
        &c.title_jp,
        &c.title_en,
        &c.title_fr,
        &c.title_de,
        &c.title_it,
        &c.title_es,
        &c.title_ch,
        &c.title_kr,
        &c.title_nl,
        &c.title_pt,
        &c.title_ru,
        &c.title_tw,
        &c.title_unused[0],
        &c.title_unused[1],
        &c.title_unused[2],
        &c.title_unused[3],
    ];
    for (k, t) in titles.iter().enumerate() {
        let at = 8 + 0x200 * k;
        assert_eq!(&t.short[..], &b[at..at + 0x80]);
        assert_eq!(&t.long[..], &b[at + 0x80..at + 0x180]);
        assert_eq!(&t.publisher[..], &b[at + 0x180..at + 0x200]);
    }
    let s = SETTINGS_OFFSET;
    let r = &c.settings.ratings;
    assert_eq!(
        [
            r.cero,
            r.esrb,
            r.null0,
            r.usk,
            r.pegi,
            r.null1,
            r.pegi_prt,
            r.pegi_bffc,
            r.cob,
            r.grb,
            r.cgsrr
        ],
        b[s..s + 11]
    );
    assert_eq!(&r.null2[..], &b[s + 11..s + 16]);
    assert_eq!(c.settings.regions, u32::from_le_bytes(b[s + 0x10..s + 0x14].try_into().unwrap()));
    assert_eq!(
        c.settings.match_maker_id,
        u32::from_le_bytes(b[s + 0x14..s + 0x18].try_into().unwrap())
    );
    assert_eq!(
        c.settings.match_maker_bit_id,
        u64::from_le_bytes(b[s + 0x18..s + 0x20].try_into().unwrap())
    );
    assert_eq!(c.settings.flags, u32::from_le_bytes(b[s + 0x20..s + 0x24].try_into().unwrap()));
    assert_eq!(c.settings.eula_minor, b[s + 0x24]);
    assert_eq!(c.settings.eula_major, b[s + 0x25]);
    assert_eq!(
        c.settings.optimal_animation_default_frame,
        u32::from_le_bytes(b[s + 0x28..s + 0x2C].try_into().unwrap())
    );
    assert_eq!(
        c.settings.streetpass_id,
        u32::from_le_bytes(b[s + 0x2C..s + 0x30].try_into().unwrap())
    );
    assert_eq!(c.null, u64::from_le_bytes(b[NULL_OFFSET..NULL_OFFSET + 8].try_into().unwrap()));
    assert_eq!(&c.icon_small[..], &b[ICON_SMALL_OFFSET..ICON_LARGE_OFFSET]);
    assert_eq!(&c.icon_large[..], &b[ICON_LARGE_OFFSET..]);
}

#[test]
fn the_animation_frame_is_kept_as_its_bits() {
    let mut b = record_bytes(0);
    b[SETTINGS_OFFSET + 0x28..SETTINGS_OFFSET + 0x2C].copy_from_slice(&1.5f32.to_le_bytes());
    let c = CtrIcon::decode(&b).unwrap();
    assert_eq!(c.settings.optimal_animation_default_frame, 1.5f32.to_bits());
    assert_eq!(f32::from_bits(c.settings.optimal_animation_default_frame), 1.5f32);
}

#[test]
fn rich_icon_round_trip_clears_only_the_padding() {
    let b = record_bytes(9);
    let c = CtrIcon::decode(&b).unwrap();
    let e = c.encode();
    let mut want = b.clone();
    assert_ne!(want[SETTINGS_OFFSET + 0x26], 0);
    want[SETTINGS_OFFSET + 0x26] = 0;
    want[SETTINGS_OFFSET + 0x27] = 0;
    assert_eq!(e, want);
    assert_eq!(CtrIcon::decode(&e).unwrap(), c);
    assert_eq!(CtrIcon::decode(&e).unwrap().encode(), e);
}

#[test]
fn icon_of_a_wrong_size_is_reported() {
    for len in [0usize, 0x36BF, 0x36C1] {
        let want = FormatMismatch {
            check: FormatCheck::Size(StructureKind::Icon),
            expected: 0x36C0,
            actual: len as u64,
        };
        assert_eq!(CtrIcon::decode(&vec![0u8; len]), Err(want));
        assert_eq!(Icon::from_bytes(&vec![0u8; len]), Err(want));
    }
}

#[test]
fn one_record_has_two_readings() {
    let b = record_bytes(3);
    let icon = Icon::from_bytes(&b).unwrap();
    assert_eq!(&icon.ntr()[..], &b[..]);
    assert_eq!(icon.ctr(), CtrIcon::decode(&b).unwrap());
}

#[test]
fn records_start_every_0x36c0_bytes() {
    assert_eq!(icon_offset(0), Some(0));
    assert_eq!(icon_offset(1), Some(0x36C0));
    assert_eq!(icon_offset(3), Some(3 * 0x36C0));
    assert_eq!(icon_offset(359), Some(359 * 0x36C0));
    assert_eq!(icon_offset(360), None);
    assert_eq!(icon_offset(usize::MAX), None);
}

#[test]
fn takes_the_record_at_a_place_out_of_the_atlas() {
    let mut atlas = vec![0u8; 360 * 0x36C0];
    for (i, x) in atlas.iter_mut().enumerate() {
        *x = (i / 0x36C0 % 256) as u8 ^ (i % 7) as u8;
    }
    for pos in [0usize, 1, 3, 255, 359] {
        let icon = get_cache_d_icon(&atlas, pos).unwrap();
        assert_eq!(&icon.ntr()[..], &atlas[pos * 0x36C0..(pos + 1) * 0x36C0]);
    }
    assert_eq!(get_cache_d_icon(&atlas, 360), Err(AtlasError::Position(360)));
    assert_eq!(get_cache_d_icon(&atlas, usize::MAX), Err(AtlasError::Position(usize::MAX)));
}

#[test]
fn an_atlas_of_a_wrong_size_is_reported() {
    for len in [0usize, 0x36C0, 360 * 0x36C0 - 1, 360 * 0x36C0 + 1] {
        let atlas = vec![0u8; len];
        let want = AtlasError::Format(FormatMismatch {
            check: FormatCheck::Size(StructureKind::CacheDDat),
            expected: 5_045_760,
            actual: len as u64,
        });
        assert_eq!(get_cache_d_icon(&atlas, 0), Err(want));
        assert_eq!(get_cache_d_icon(&atlas, 400), Err(want));
    }
}

#[test]
fn titles_and_ratings_read_and_write() {
    let b = record_bytes(1);
    let t = AppTitles::read(&b, 0x208);
    let mut out = Vec::new();
    t.write(&mut out);
    assert_eq!(out, b[0x208..0x408].to_vec());
    let g = GameRatings::read(&b, SETTINGS_OFFSET);
    let mut out = Vec::new();
    g.write(&mut out);
    assert_eq!(out, b[SETTINGS_OFFSET..SETTINGS_OFFSET + 16].to_vec());
    let s = AppSettings::read(&b, SETTINGS_OFFSET);
    let mut out = Vec::new();
    s.write(&mut out);
    assert_eq!(out.len(), 0x30);
    assert_eq!(out[..0x26], b[SETTINGS_OFFSET..SETTINGS_OFFSET + 0x26]);
    assert_eq!(out[0x26..0x28], [0, 0]);
    assert_eq!(out[0x28..], b[SETTINGS_OFFSET + 0x28..SETTINGS_OFFSET + 0x30]);
}

#[test]
fn the_caller_names_the_shape_to_read() {
    let b = record_bytes(7);
    let icon = Icon::from_bytes(&b).unwrap();
    assert_eq!(icon.read_as(IconLayout::Ctr), IconReading::Ctr(CtrIcon::decode(&b).unwrap()));
    match icon.read_as(IconLayout::Ntr) {
        IconReading::Ntr(raw) => assert_eq!(&raw[..], &b[..]),
        IconReading::Ctr(_) => panic!("asked for the legacy shape"),
    }
}
