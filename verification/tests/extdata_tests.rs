use home_menu_extdata::extdata::{
    binary_path_size, extdata_candidate, extdata_path, EXTDATA_CANDIDATES,
};

#[test]
fn candidates_in_the_order_they_are_tried() {
    assert_eq!(EXTDATA_CANDIDATES, 3);
    assert_eq!(extdata_candidate(0), Some(0x82));
    assert_eq!(extdata_candidate(1), Some(0x8f));
    assert_eq!(extdata_candidate(2), Some(0x98));
    assert_eq!(extdata_candidate(3), None);
    assert_eq!(extdata_candidate(usize::MAX), None);
}

#[test]
fn path_words_are_media_low_high() {
    assert_eq!(extdata_path(0x82, 1), [1, 0x82, 0]);
    assert_eq!(extdata_path(0x0123_4567_89AB_CDEF, 2), [2, 0x89AB_CDEF, 0x0123_4567]);
    assert_eq!(extdata_path(u64::MAX, u32::MAX), [u32::MAX, u32::MAX, u32::MAX]);
    assert_eq!(extdata_path(0, 0), [0, 0, 0]);
    assert_eq!(extdata_path(0x1_0000_0000, 1), [1, 0, 1]);
}

#[test]
fn path_words_agree_with_shifts() {
    for id in [0x82u64, 0x8f, 0x98, 0xFFFF_FFFF, 0x1_0000_0000, 0xDEAD_BEEF_0BAD_F00D] {
        let p = extdata_path(id, 1);
        assert_eq!(p[1], id as u32);
        assert_eq!(p[2], (id >> 32) as u32);
    }
}

#[test]
fn path_size_is_four_bytes_a_word() {
    assert_eq!(binary_path_size(0), Some(0));
    assert_eq!(binary_path_size(3), Some(12));
    assert_eq!(binary_path_size(0x3FFF_FFFF), Some(0xFFFF_FFFC));
    assert_eq!(binary_path_size(0x4000_0000), None);
}
