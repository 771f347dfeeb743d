//! Size and version checks that stand before every decode.
//!
//! The home-menu files have no framing: a file is either exactly as long as
//! its structure or it is not that structure. Each check either passes or
//! reports which rule failed, with the value expected and the value found.

use vstd::prelude::*;

verus! {

/// Byte length of `SaveData.dat`.
pub const SAVE_DATA_SIZE: usize = 0x2DA0;

/// Byte length of `Cache.dat`.
pub const CACHE_DAT_SIZE: usize = 0x1688;

/// Byte length of one icon record of `CacheD.dat`.
pub const ICON_SIZE: usize = 0x36C0;

/// Number of title slots, cache entries and icon records.
pub const SLOT_COUNT: usize = 360;

/// Byte length of `CacheD.dat`: one icon record per slot.
pub const CACHE_D_DAT_SIZE: usize = 0x4C_FE00;

/// Oldest save-data version whose fields can be trusted.
pub const MIN_SAVE_DATA_VERSION: u8 = 4;

/// The atlas is exactly one record per slot.
pub proof fn lemma_atlas_size()
    ensures
        CACHE_D_DAT_SIZE == SLOT_COUNT * ICON_SIZE,
{
}

/// The fixed-size structures that can be checked.
#[derive(Clone, Copy, Debug, PartialEq, Eq, Structural)]
pub enum StructureKind {
    /// The save table, `SaveData.dat`.
    SaveData,
    /// The cache index, `Cache.dat`.
    CacheDat,
    /// The icon atlas, `CacheD.dat`.
    CacheDDat,
    /// A single icon record of the atlas.
    Icon,
}

/// The rule that a buffer or a structure broke.
#[derive(Clone, Copy, Debug, PartialEq, Eq, Structural)]
pub enum FormatCheck {
    /// The byte length is not the structure's fixed size.
    Size(StructureKind),
    /// The save table's version is too low.
    Version,
}

/// A failed check: the rule, what it asked for and what was found.
#[derive(Clone, Copy, Debug, PartialEq, Eq, Structural)]
pub struct FormatMismatch {
    pub check: FormatCheck,
    pub expected: u64,
    pub actual: u64,
}

/// The fixed byte length of a structure.
pub open spec fn spec_expected_size(kind: StructureKind) -> u64 {
    match kind {
        StructureKind::SaveData => 0x2DA0,
        StructureKind::CacheDat => 0x1688,
        StructureKind::CacheDDat => 0x4C_FE00,
        StructureKind::Icon => 0x36C0,
    }
}

/// What a size check answers for a length.
pub open spec fn spec_check_size(kind: StructureKind, len: u64) -> Result<(), FormatMismatch> {
    if len == spec_expected_size(kind) {
        Ok(())
    } else {
        Err(
            FormatMismatch {
                check: FormatCheck::Size(kind),
                expected: spec_expected_size(kind),
                actual: len,
            },
        )
    }
}

/// What the version check answers for a version.
pub open spec fn spec_check_version(version: u8) -> Result<(), FormatMismatch> {
    if version >= 4 {
        Ok(())
    } else {
        Err(FormatMismatch { check: FormatCheck::Version, expected: 4, actual: version as u64 })
    }
}

/// The fixed byte length of a structure.
#[verifier::when_used_as_spec(spec_expected_size)]
pub fn expected_size(kind: StructureKind) -> (r: u64)
    ensures
        r == spec_expected_size(kind),
{
    match kind {
        StructureKind::SaveData => SAVE_DATA_SIZE as u64,
        StructureKind::CacheDat => CACHE_DAT_SIZE as u64,
        StructureKind::CacheDDat => CACHE_D_DAT_SIZE as u64,
        StructureKind::Icon => ICON_SIZE as u64,
    }
}

/// Accepts a byte length only if it is the structure's fixed size.
pub fn check_size(kind: StructureKind, len: u64) -> (r: Result<(), FormatMismatch>)
    ensures
        r == spec_check_size(kind, len),
{
    let expected = expected_size(kind);
    if len == expected {
        Ok(())
    } else {
        Err(FormatMismatch { check: FormatCheck::Size(kind), expected, actual: len })
    }
}

/// Accepts a save-table version only from the oldest trusted one on.
pub fn check_version(version: u8) -> (r: Result<(), FormatMismatch>)
    ensures
        r == spec_check_version(version),
{
    if version >= MIN_SAVE_DATA_VERSION {
        Ok(())
    } else {
        Err(
            FormatMismatch {
                check: FormatCheck::Version,
                expected: MIN_SAVE_DATA_VERSION as u64,
                actual: version as u64,
            },
        )
    }
}

/// A length that is not the fixed size never passes, and the report names
/// the structure, its size and the length found.
pub proof fn lemma_wrong_size_is_rejected(kind: StructureKind, len: u64)
    requires
        len != spec_expected_size(kind),
    ensures
        spec_check_size(kind, len) is Err,
        spec_check_size(kind, len)->Err_0.check == FormatCheck::Size(kind),
        spec_check_size(kind, len)->Err_0.expected == spec_expected_size(kind),
        spec_check_size(kind, len)->Err_0.actual == len,
{
}

} // verus!
