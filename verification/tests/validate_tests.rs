use home_menu_extdata::validate::{
    check_size, check_version, expected_size, FormatCheck, FormatMismatch, StructureKind,
    CACHE_D_DAT_SIZE, CACHE_DAT_SIZE, ICON_SIZE, MIN_SAVE_DATA_VERSION, SAVE_DATA_SIZE, SLOT_COUNT,
};

#[test]
fn fixed_sizes() {
    assert_eq!(SAVE_DATA_SIZE, 0x2DA0);
    assert_eq!(CACHE_DAT_SIZE, 0x1688);
    assert_eq!(ICON_SIZE, 0x36C0);
    assert_eq!(SLOT_COUNT, 360);
    assert_eq!(CACHE_D_DAT_SIZE, 360 * 0x36C0);
    assert_eq!(MIN_SAVE_DATA_VERSION, 4);
    assert_eq!(expected_size(StructureKind::SaveData), 0x2DA0);
    assert_eq!(expected_size(StructureKind::CacheDat), 0x1688);
    assert_eq!(expected_size(StructureKind::CacheDDat), 360 * 0x36C0);
    assert_eq!(expected_size(StructureKind::Icon), 0x36C0);
}

#[test]
fn the_fixed_size_passes() {
    assert_eq!(check_size(StructureKind::SaveData, 0x2DA0), Ok(()));
    assert_eq!(check_size(StructureKind::CacheDat, 0x1688), Ok(()));
    assert_eq!(check_size(StructureKind::CacheDDat, 5_045_760), Ok(()));
    assert_eq!(check_size(StructureKind::Icon, 0x36C0), Ok(()));
}

#[test]
fn any_other_size_is_a_format_mismatch() {
    for len in [0u64, 1, 0x2D9F, 0x2DA1, 0x1688, u64::MAX] {
        assert_eq!(
            check_size(StructureKind::SaveData, len),
            Err(FormatMismatch {
                check: FormatCheck::Size(StructureKind::SaveData),
                expected: 0x2DA0,
                actual: len,
            })
        );
    }
    assert_eq!(
        check_size(StructureKind::CacheDat, 0x2DA0),
        Err(FormatMismatch {
            check: FormatCheck::Size(StructureKind::CacheDat),
            expected: 0x1688,
            actual: 0x2DA0,
        })
    );
    assert_eq!(
        check_size(StructureKind::CacheDDat, 0x36C0),
        Err(FormatMismatch {
            check: FormatCheck::Size(StructureKind::CacheDDat),
            expected: 5_045_760,
            actual: 0x36C0,
        })
    );
    assert_eq!(
        check_size(StructureKind::Icon, 0x36BF),
        Err(FormatMismatch {
            check: FormatCheck::Size(StructureKind::Icon),
            expected: 0x36C0,
            actual: 0x36BF,
        })
    );
}

#[test]
fn version_four_is_the_oldest_that_passes() {
    assert_eq!(check_version(4), Ok(()));
    assert_eq!(check_version(5), Ok(()));
    assert_eq!(check_version(255), Ok(()));
    for v in 0u8..4 {
        assert_eq!(
            check_version(v),
            Err(FormatMismatch { check: FormatCheck::Version, expected: 4, actual: v as u64 })
        );
    }
}
