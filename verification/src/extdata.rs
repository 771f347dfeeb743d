//! Finding the home menu's extended-data archive.
//!
//! The archive's identifier depends on the console's region. The archive is
//! opened by a binary path of three words: the media selector and the two
//! halves of the 64-bit identifier, low half first.

use vstd::prelude::*;

verus! {

/// Number of archive identifiers that are tried.
pub const EXTDATA_CANDIDATES: usize = 3;

/// The archive identifier that is tried at `attempt`, counted from 0.
pub open spec fn spec_extdata_candidate(attempt: int) -> Option<u64> {
    if attempt == 0 {
        Some(0x0000_0082u64)
    } else if attempt == 1 {
        Some(0x0000_008Fu64)
    } else if attempt == 2 {
        Some(0x0000_0098u64)
    } else {
        None
    }
}

/// The archive identifier to try at `attempt`, counted from 0: the caller
/// tries them in turn and keeps the first that opens. After the last there
/// is none, and no archive was found.
pub fn extdata_candidate(attempt: usize) -> (r: Option<u64>)
    ensures
        r == spec_extdata_candidate(attempt as int),
        r is Some <==> attempt < EXTDATA_CANDIDATES,
{
    if attempt == 0 {
        Some(0x0000_0082)
    } else if attempt == 1 {
        Some(0x0000_008F)
    } else if attempt == 2 {
        Some(0x0000_0098)
    } else {
        None
    }
}

/// The three words of the binary path: media selector, low half of the
/// identifier, high half.
pub open spec fn spec_extdata_path(id: u64, media_type: u32) -> Seq<u32> {
    seq![media_type, (id % 0x1_0000_0000) as u32, (id / 0x1_0000_0000) as u32]
}

/// The words of the binary path that opens the archive `id` on the medium
/// `media_type`.
pub fn extdata_path(id: u64, media_type: u32) -> (r: [u32; 3])
    ensures
        r@ == spec_extdata_path(id, media_type),
{
    let r = [media_type, (id % 0x1_0000_0000) as u32, (id / 0x1_0000_0000) as u32];
    assert(r@ =~= spec_extdata_path(id, media_type));
    r
}

/// The identifier whose binary path has the halves `low` and `high`.
pub open spec fn joined_id(low: u32, high: u32) -> u64 {
    (low + 0x1_0000_0000 * high) as u64
}

/// The two halves of a path name the identifier they were split from.
pub proof fn lemma_path_names_id(id: u64, media_type: u32)
    ensures
        joined_id(spec_extdata_path(id, media_type)[1], spec_extdata_path(id, media_type)[2])
            == id,
{
}

/// The byte length of a binary path of `words` 32-bit words, where it fits
/// the 32-bit size field.
pub fn binary_path_size(words: usize) -> (r: Option<u32>)
    ensures
        4 * words <= u32::MAX ==> r == Some((4 * words) as u32),
        4 * words > u32::MAX ==> r is None,
{
    if words <= 0x3FFF_FFFF {
        Some((words * 4) as u32)
    } else {
        None
    }
}

} // verus!
