//! The save table, `SaveData.dat`: which title sits in which slot.

use crate::endian::{
    flag_byte, flag_of, flags_at, flags_bytes, flags_canonical, i16s_at, i16s_le_bytes, i8s_at,
    i8s_bytes, lemma_flags_bytes_round_trip, lemma_flags_len, lemma_flags_read_back,
    lemma_i16s_bytes_round_trip, lemma_i16s_len, lemma_i16s_read_back, lemma_i8s_bytes_round_trip,
    lemma_i8s_len, lemma_i8s_read_back, lemma_u64s_bytes_round_trip, lemma_u64s_len,
    lemma_u64s_read_back, push_bytes, push_flags, push_i16s, push_i8s, push_u64s, read_array,
    read_flag_array, read_i16_array, read_i8_array, read_u64_array, u64s_at, u64s_le_bytes,
};
use crate::home_menu::theme::{
    lemma_theme_entry_bytes_round_trip, lemma_theme_entry_len, lemma_theme_entry_read_back,
    ThemeEntry,
};
use crate::layout::{
    all_wide, laid_out, lemma_laid_out_found, lemma_laid_out_len, lemma_laid_out_push,
    lemma_laid_out_record, lemma_stretch_join,
};
use crate::validate::{
    check_size, check_version, spec_check_size, spec_check_version, FormatMismatch, StructureKind,
    SAVE_DATA_SIZE,
};
use vstd::prelude::*;

verus! {

/// Offset of the version byte.
pub const VERSION_OFFSET: usize = 0x0;

/// Offset of the seven reserved bytes after the version.
pub const UNK0_OFFSET: usize = 0x1;

/// Offset of the 360 title identifiers.
pub const TITLES_OFFSET: usize = 0x8;

/// Offset of the 360 icon-present flags.
pub const ICON_PRESENT_OFFSET: usize = 0xB48;

/// Offset of the 360 menu positions.
pub const TITLES_POS_OFFSET: usize = 0xCB0;

/// Offset of the 360 folder indices.
pub const TITLES_FOLDER_OFFSET: usize = 0xF80;

/// Offset of the first reserved region.
pub const UNK1_OFFSET: usize = 0x10E8;

/// Offset of the standard theme entry.
pub const THEME_STANDARD_OFFSET: usize = 0x13B8;

/// Offset of the ten shuffle theme entries.
pub const THEME_SHUFFLE_OFFSET: usize = 0x13C0;

/// Offset of the second reserved region.
pub const UNK2_OFFSET: usize = 0x1410;

/// Offset of the shuffle flag.
pub const IS_SHUFFLE_OFFSET: usize = 0x141B;

/// Offset of the last reserved region, which runs to the end.
pub const UNK3_OFFSET: usize = 0x141C;

/// Number of shuffle theme entries.
pub const SHUFFLE_THEMES: usize = 10;

/// The fields follow one another without a gap and fill the file.
pub proof fn lemma_save_data_layout()
    ensures
        UNK0_OFFSET == VERSION_OFFSET + 1,
        TITLES_OFFSET == UNK0_OFFSET + 7,
        ICON_PRESENT_OFFSET == TITLES_OFFSET + 8 * 360,
        TITLES_POS_OFFSET == ICON_PRESENT_OFFSET + 360,
        TITLES_FOLDER_OFFSET == TITLES_POS_OFFSET + 2 * 360,
        UNK1_OFFSET == TITLES_FOLDER_OFFSET + 360,
        THEME_STANDARD_OFFSET == UNK1_OFFSET + 0x2D0,
        THEME_SHUFFLE_OFFSET == THEME_STANDARD_OFFSET + 8,
        UNK2_OFFSET == THEME_SHUFFLE_OFFSET + 8 * 10,
        IS_SHUFFLE_OFFSET == UNK2_OFFSET + 0xB,
        UNK3_OFFSET == IS_SHUFFLE_OFFSET + 1,
        SAVE_DATA_SIZE == UNK3_OFFSET + 0x1984,
{
}

/// The save table. Slot `i` of each of the four parallel arrays speaks of
/// the same title; a title identifier of 0 marks an empty slot.
#[derive(Clone, Debug, PartialEq, Eq)]
pub struct SaveData {
    pub version: u8,
    pub unk0: [u8; 7],
    pub titles: [u64; 360],
    pub is_icon_present: [bool; 360],
    pub titles_pos: [i16; 360],
    pub titles_folder: [i8; 360],
    pub unk1: [u8; 0x2D0],
    pub theme_standard: ThemeEntry,
    pub theme_shuffle: [ThemeEntry; 10],
    pub unk2: [u8; 0xB],
    pub is_shuffle: bool,
    pub unk3: [u8; 0x1984],
}

/// How one theme entry is stored.
pub open spec fn theme_enc() -> spec_fn(ThemeEntry) -> Seq<u8> {
    |e: ThemeEntry| e.encoding()
}

/// `items` are the theme entries stored from `at` on.
pub open spec fn themes_at(items: Seq<ThemeEntry>, bytes: Seq<u8>, at: int) -> bool {
    forall|i: int| 0 <= i < items.len() ==> (#[trigger] items[i]).decodes(bytes, at + 8 * i)
}

impl SaveData {
    /// `self` is what `bytes` hold, field by field at the fixed offsets.
    pub open spec fn decodes(&self, bytes: Seq<u8>) -> bool {
        &&& self.version == bytes[0]
        &&& self.unk0@ == bytes.subrange(0x1, 0x8)
        &&& u64s_at(self.titles@, bytes, 0x8)
        &&& flags_at(self.is_icon_present@, bytes, 0xB48)
        &&& i16s_at(self.titles_pos@, bytes, 0xCB0)
        &&& i8s_at(self.titles_folder@, bytes, 0xF80)
        &&& self.unk1@ == bytes.subrange(0x10E8, 0x13B8)
        &&& self.theme_standard.decodes(bytes, 0x13B8)
        &&& themes_at(self.theme_shuffle@, bytes, 0x13C0)
        &&& self.unk2@ == bytes.subrange(0x1410, 0x141B)
        &&& self.is_shuffle == flag_of(bytes[0x141B])
        &&& self.unk3@ == bytes.subrange(0x141C, 0x2DA0)
    }

    /// A table as decoding yields it: no theme kind hides a known kind in
    /// the catch-all.
    pub open spec fn canonical(&self) -> bool {
        &&& self.theme_standard.theme_type.canonical()
        &&& forall|i: int|
            0 <= i < 10 ==> (#[trigger] self.theme_shuffle@[i]).theme_type.canonical()
    }

    /// The bytes that hold `self`: every field in order, reserved regions
    /// as they are, flags as 0 or 1.
    pub open spec fn encoding(&self) -> Seq<u8> {
        seq![self.version] + self.unk0@ + u64s_le_bytes(self.titles@) + flags_bytes(
            self.is_icon_present@,
        ) + i16s_le_bytes(self.titles_pos@) + i8s_bytes(self.titles_folder@) + self.unk1@
            + self.theme_standard.encoding() + laid_out(self.theme_shuffle@, theme_enc())
            + self.unk2@ + seq![flag_byte(self.is_shuffle)] + self.unk3@
    }

    /// What the checks before and after decoding answer for `bytes`: the
    /// size first, then the version byte.
    pub open spec fn spec_validate(bytes: Seq<u8>) -> Result<(), FormatMismatch> {
        match spec_check_size(StructureKind::SaveData, bytes.len() as u64) {
            Err(e) => Err(e),
            Ok(_) => spec_check_version(bytes[0]),
        }
    }

    /// Decodes a buffer of exactly the save table's size. A buffer of any
    /// other length is reported and not read.
    pub fn decode(bytes: &[u8]) -> (r: Result<SaveData, FormatMismatch>)
        ensures
            match r {
                Ok(s) => bytes@.len() == SAVE_DATA_SIZE && s.decodes(bytes@),
                Err(e) => spec_check_size(StructureKind::SaveData, bytes@.len() as u64) == Err::<
                    (),
                    FormatMismatch,
                >(e),
            },
    {
        match check_size(StructureKind::SaveData, bytes.len() as u64) {
            Err(e) => Err(e),
            Ok(_) => Ok(SaveData::decode_fields(bytes)),
        }
    }

    /// Decodes the fields of a buffer whose size was checked.
    fn decode_fields(bytes: &[u8]) -> (r: SaveData)
        requires
            bytes@.len() == SAVE_DATA_SIZE,
        ensures
            r.decodes(bytes@),
    {
        let theme_standard = ThemeEntry::read(bytes, THEME_STANDARD_OFFSET);
        let mut theme_shuffle = [theme_standard;10];
        let mut i: usize = 0;
        while i < SHUFFLE_THEMES
            invariant
                i <= SHUFFLE_THEMES,
                bytes@.len() == SAVE_DATA_SIZE,
                forall|j: int|
                    0 <= j < i ==> (#[trigger] theme_shuffle@[j]).decodes(bytes@, 0x13C0 + 8 * j),
            decreases SHUFFLE_THEMES - i,
        {
            theme_shuffle[i] = ThemeEntry::read(bytes, THEME_SHUFFLE_OFFSET + 8 * i);
            i += 1;
        }
        SaveData {
            version: bytes[VERSION_OFFSET],
            unk0: read_array::<7>(bytes, UNK0_OFFSET),
            titles: read_u64_array::<360>(bytes, TITLES_OFFSET),
            is_icon_present: read_flag_array::<360>(bytes, ICON_PRESENT_OFFSET),
            titles_pos: read_i16_array::<360>(bytes, TITLES_POS_OFFSET),
            titles_folder: read_i8_array::<360>(bytes, TITLES_FOLDER_OFFSET),
            unk1: read_array::<0x2D0>(bytes, UNK1_OFFSET),
            theme_standard,
            theme_shuffle,
            unk2: read_array::<0xB>(bytes, UNK2_OFFSET),
            is_shuffle: bytes[IS_SHUFFLE_OFFSET] != 0,
            unk3: read_array::<0x1984>(bytes, UNK3_OFFSET),
        }
    }

    /// Confirms that the table's version is one whose fields can be trusted.
    pub fn validate_version(&self) -> (r: Result<(), FormatMismatch>)
        ensures
            r == spec_check_version(self.version),
    {
        check_version(self.version)
    }

    /// Checks the size, decodes, then checks the version: the whole path
    /// from a file's bytes to a table that can be used.
    pub fn parse(bytes: &[u8]) -> (r: Result<SaveData, FormatMismatch>)
        ensures
            match r {
                Ok(s) => SaveData::spec_validate(bytes@) is Ok && s.decodes(bytes@),
                Err(e) => SaveData::spec_validate(bytes@) == Err::<(), FormatMismatch>(e),
            },
    {
        match SaveData::decode(bytes) {
            Err(e) => Err(e),
            Ok(s) => match s.validate_version() {
                Err(e) => Err(e),
                Ok(_) => Ok(s),
            },
        }
    }

    /// Encodes the table into the bytes of its file.
    pub fn encode(&self) -> (r: Vec<u8>)
        ensures
            r@ == self.encoding(),
    {
        let mut out: Vec<u8> = Vec::new();
        out.push(self.version);
        push_bytes(&mut out, &self.unk0);
        push_u64s(&mut out, &self.titles);
        push_flags(&mut out, &self.is_icon_present);
        push_i16s(&mut out, &self.titles_pos);
        push_i8s(&mut out, &self.titles_folder);
        push_bytes(&mut out, &self.unk1);
        self.theme_standard.write(&mut out);
        let ghost before = out@;
        let mut i: usize = 0;
        while i < SHUFFLE_THEMES
            invariant
                i <= SHUFFLE_THEMES,
                out@ == before + laid_out(self.theme_shuffle@.take(i as int), theme_enc()),
            decreases SHUFFLE_THEMES - i,
        {
            proof {
                lemma_laid_out_push(
                    self.theme_shuffle@.take(i as int),
                    theme_enc(),
                    self.theme_shuffle@[i as int],
                );
                assert(self.theme_shuffle@.take(i as int).push(self.theme_shuffle@[i as int])
                    =~= self.theme_shuffle@.take(i + 1));
            }
            self.theme_shuffle[i].write(&mut out);
            i += 1;
        }
        assert(self.theme_shuffle@.take(i as int) =~= self.theme_shuffle@);
        push_bytes(&mut out, &self.unk2);
        out.push(if self.is_shuffle { 1 } else { 0 });
        push_bytes(&mut out, &self.unk3);
        assert(out@ =~= self.encoding());
        out
    }
}

/// The bytes of `buf` that the decoder reads as flags are all 0 or 1.
pub open spec fn save_data_flags_canonical(bytes: Seq<u8>) -> bool {
    &&& flags_canonical(bytes, 0xB48, 0xCB0)
    &&& bytes[0x141B] <= 1
}

/// Decoding a buffer and encoding the result gives the buffer back, for
/// every buffer of the save table's size whose flag bytes are 0 or 1.
/// Reserved regions come back too: they are fields.
pub proof fn lemma_save_data_bytes_round_trip(s: SaveData, bytes: Seq<u8>)
    requires
        bytes.len() == SAVE_DATA_SIZE,
        s.decodes(bytes),
        save_data_flags_canonical(bytes),
    ensures
        s.encoding() == bytes,
{
    assert(seq![s.version] == bytes.subrange(0x0, 0x1)) by {
        assert(seq![s.version] =~= bytes.subrange(0x0, 0x1));
    }
    lemma_stretch_join(bytes, 0, 0x1, 0x8);
    assert(u64s_le_bytes(s.titles@) == bytes.subrange(0x8, 0xB48)) by {
        lemma_u64s_bytes_round_trip(s.titles@, bytes, 0x8);
    }
    lemma_stretch_join(bytes, 0, 0x8, 0xB48);
    assert(flags_bytes(s.is_icon_present@) == bytes.subrange(0xB48, 0xCB0)) by {
        lemma_flags_bytes_round_trip(s.is_icon_present@, bytes, 0xB48);
    }
    lemma_stretch_join(bytes, 0, 0xB48, 0xCB0);
    assert(i16s_le_bytes(s.titles_pos@) == bytes.subrange(0xCB0, 0xF80)) by {
        lemma_i16s_bytes_round_trip(s.titles_pos@, bytes, 0xCB0);
    }
    lemma_stretch_join(bytes, 0, 0xCB0, 0xF80);
    assert(i8s_bytes(s.titles_folder@) == bytes.subrange(0xF80, 0x10E8)) by {
        lemma_i8s_bytes_round_trip(s.titles_folder@, bytes, 0xF80);
    }
    lemma_stretch_join(bytes, 0, 0xF80, 0x10E8);
    lemma_stretch_join(bytes, 0, 0x10E8, 0x13B8);
    assert(s.theme_standard.encoding() == bytes.subrange(0x13B8, 0x13C0)) by {
        lemma_theme_entry_bytes_round_trip(s.theme_standard, bytes, 0x13B8);
    }
    lemma_stretch_join(bytes, 0, 0x13B8, 0x13C0);
    assert(laid_out(s.theme_shuffle@, theme_enc()) == bytes.subrange(0x13C0, 0x1410)) by {
        assert forall|i: int| 0 <= i < 10 implies #[trigger] theme_enc()(s.theme_shuffle@[i])
            == bytes.subrange(0x13C0 + 8 * i, 0x13C0 + 8 * i + 8) by {
            lemma_theme_entry_bytes_round_trip(s.theme_shuffle@[i], bytes, 0x13C0 + 8 * i);
        }
        lemma_laid_out_found(s.theme_shuffle@, theme_enc(), 8, bytes, 0x13C0);
    }
    lemma_stretch_join(bytes, 0, 0x13C0, 0x1410);
    lemma_stretch_join(bytes, 0, 0x1410, 0x141B);
    assert(seq![flag_byte(s.is_shuffle)] == bytes.subrange(0x141B, 0x141C)) by {
        assert(seq![flag_byte(s.is_shuffle)] =~= bytes.subrange(0x141B, 0x141C));
    }
    lemma_stretch_join(bytes, 0, 0x141B, 0x141C);
    lemma_stretch_join(bytes, 0, 0x141C, 0x2DA0);
    assert(bytes.subrange(0, 0x2DA0) =~= bytes);
}

/// `bytes` with every byte that is read as a flag set to 0 or 1: the byte
/// that the flag is written as.
pub open spec fn save_data_flags_normalized(bytes: Seq<u8>) -> Seq<u8> {
    Seq::new(
        bytes.len(),
        |i: int|
            if 0xB48 <= i < 0xCB0 || i == 0x141B {
                flag_byte(flag_of(bytes[i]))
            } else {
                bytes[i]
            },
    )
}

/// Decoding a buffer and encoding the result gives the buffer back with its
/// flag bytes set to 0 or 1, for every buffer of the save table's size.
pub proof fn lemma_save_data_round_trip_normalizes(s: SaveData, bytes: Seq<u8>)
    requires
        bytes.len() == SAVE_DATA_SIZE,
        s.decodes(bytes),
    ensures
        s.encoding() == save_data_flags_normalized(bytes),
{
    let norm = save_data_flags_normalized(bytes);
    assert(s.unk0@ =~= norm.subrange(0x1, 0x8));
    assert(s.unk1@ =~= norm.subrange(0x10E8, 0x13B8));
    assert(s.unk2@ =~= norm.subrange(0x1410, 0x141B));
    assert(s.unk3@ =~= norm.subrange(0x141C, 0x2DA0));
    assert(s.theme_standard.null@ =~= norm.subrange(0x13BE, 0x13C0));
    assert forall|i: int| 0 <= i < 10 implies (#[trigger] s.theme_shuffle@[i]).decodes(
        norm,
        0x13C0 + 8 * i,
    ) by {
        let e = s.theme_shuffle@[i];
        assert(e.decodes(bytes, 0x13C0 + 8 * i));
        assert(e.null@ =~= norm.subrange(0x13C0 + 8 * i + 6, 0x13C0 + 8 * i + 8));
    }
    assert(s.decodes(norm));
    lemma_save_data_bytes_round_trip(s, norm);
}

/// Two tables decoded from one buffer are the same table.
pub proof fn lemma_save_data_decoding_unique(a: SaveData, b: SaveData, bytes: Seq<u8>)
    requires
        a.decodes(bytes),
        b.decodes(bytes),
    ensures
        a == b,
{
    assert(a.unk0 =~= b.unk0);
    assert(a.titles =~= b.titles);
    assert(a.is_icon_present =~= b.is_icon_present);
    assert(a.titles_pos =~= b.titles_pos);
    assert(a.titles_folder =~= b.titles_folder);
    assert(a.unk1 =~= b.unk1);
    assert(a.theme_standard.null =~= b.theme_standard.null);
    assert forall|i: int| 0 <= i < 10 implies a.theme_shuffle[i] == b.theme_shuffle[i] by {
        assert(a.theme_shuffle@[i].decodes(bytes, 0x13C0 + 8 * i));
        assert(b.theme_shuffle@[i].decodes(bytes, 0x13C0 + 8 * i));
        assert(a.theme_shuffle[i].null =~= b.theme_shuffle[i].null);
    }
    assert(a.theme_shuffle =~= b.theme_shuffle);
    assert(a.unk2 =~= b.unk2);
    assert(a.unk3 =~= b.unk3);
}

/// A decoded table is canonical.
pub proof fn lemma_decoded_save_data_is_canonical(s: SaveData, bytes: Seq<u8>)
    requires
        s.decodes(bytes),
    ensures
        s.canonical(),
{
    assert forall|i: int| 0 <= i < 10 implies (#[trigger] s.theme_shuffle@[
        i
    ]).theme_type.canonical() by {
        assert(s.theme_shuffle@[i].decodes(bytes, 0x13C0 + 8 * i));
    }
}

/// Encoding a table gives a buffer of the save table's size, and decoding
/// that buffer gives the table back, for every canonical table.
pub proof fn lemma_save_data_value_round_trip(s: SaveData)
    requires
        s.canonical(),
    ensures
        s.encoding().len() == SAVE_DATA_SIZE,
        s.decodes(s.encoding()),
{
    let enc = s.encoding();
    let themes = laid_out(s.theme_shuffle@, theme_enc());
    lemma_u64s_len(s.titles@);
    lemma_flags_len(s.is_icon_present@);
    lemma_i16s_len(s.titles_pos@);
    lemma_i8s_len(s.titles_folder@);
    lemma_theme_entry_len(s.theme_standard);
    assert(all_wide(s.theme_shuffle@, theme_enc(), 8)) by {
        assert forall|i: int| 0 <= i < 10 implies (#[trigger] theme_enc()(
            s.theme_shuffle@[i],
        )).len() == 8 by {
            lemma_theme_entry_len(s.theme_shuffle@[i]);
        }
    }
    lemma_laid_out_len(s.theme_shuffle@, theme_enc(), 8);
    assert(enc.len() == 0x2DA0);
    assert(enc[0] == s.version);
    assert(enc.subrange(0x1, 0x8) =~= s.unk0@);
    assert(enc.subrange(0x8, 0xB48) =~= u64s_le_bytes(s.titles@));
    assert(enc.subrange(0xB48, 0xCB0) =~= flags_bytes(s.is_icon_present@));
    assert(enc.subrange(0xCB0, 0xF80) =~= i16s_le_bytes(s.titles_pos@));
    assert(enc.subrange(0xF80, 0x10E8) =~= i8s_bytes(s.titles_folder@));
    assert(enc.subrange(0x10E8, 0x13B8) =~= s.unk1@);
    assert(enc.subrange(0x13B8, 0x13C0) =~= s.theme_standard.encoding());
    assert(enc.subrange(0x13C0, 0x1410) =~= themes);
    assert(enc.subrange(0x1410, 0x141B) =~= s.unk2@);
    assert(enc[0x141B] == flag_byte(s.is_shuffle));
    assert(enc.subrange(0x141C, 0x2DA0) =~= s.unk3@);
    lemma_u64s_read_back(s.titles@, enc, 0x8);
    lemma_flags_read_back(s.is_icon_present@, enc, 0xB48);
    lemma_i16s_read_back(s.titles_pos@, enc, 0xCB0);
    lemma_i8s_read_back(s.titles_folder@, enc, 0xF80);
    lemma_theme_entry_read_back(s.theme_standard, enc, 0x13B8);
    assert forall|i: int| 0 <= i < 10 implies (#[trigger] s.theme_shuffle@[i]).decodes(
        enc,
        0x13C0 + 8 * i,
    ) by {
        lemma_laid_out_record(s.theme_shuffle@, theme_enc(), 8, i);
        assert(enc.subrange(0x13C0 + 8 * i, 0x13C0 + 8 * i + 8) =~= enc.subrange(
            0x13C0,
            0x1410,
        ).subrange(8 * i, 8 * i + 8));
        lemma_theme_entry_read_back(s.theme_shuffle@[i], enc, 0x13C0 + 8 * i);
    }
}

} // verus!
