//! Theme entries of the save table.

use crate::endian::{
    le_u32, lemma_u32_bytes_round_trip, lemma_u32_read_back, lemma_u32_value_round_trip, push_bytes,
    push_u32, read_array, read_u32, u32_le_bytes,
};
use crate::layout::lemma_stretch_of_stretch;
use vstd::prelude::*;

verus! {

/// Byte length of one theme entry.
pub const THEME_ENTRY_SIZE: usize = 8;

/// Where a theme comes from.
#[derive(Clone, Copy, Debug, PartialEq, Eq, Structural)]
pub enum ThemeType {
    NoTheme,
    BuiltIn,
    FromSD,
    Unk3,
    Unk4,
    Unk5,
    /// A byte that names none of the known kinds, kept as found.
    Other(u8),
}

/// The kind that a byte of the file stands for.
pub open spec fn theme_type_of(b: u8) -> ThemeType {
    if b == 0 {
        ThemeType::NoTheme
    } else if b == 1 {
        ThemeType::BuiltIn
    } else if b == 2 {
        ThemeType::FromSD
    } else if b == 3 {
        ThemeType::Unk3
    } else if b == 4 {
        ThemeType::Unk4
    } else if b == 5 {
        ThemeType::Unk5
    } else {
        ThemeType::Other(b)
    }
}

/// The byte that stands for a kind in the file.
pub open spec fn theme_type_byte(t: ThemeType) -> u8 {
    match t {
        ThemeType::NoTheme => 0,
        ThemeType::BuiltIn => 1,
        ThemeType::FromSD => 2,
        ThemeType::Unk3 => 3,
        ThemeType::Unk4 => 4,
        ThemeType::Unk5 => 5,
        ThemeType::Other(b) => b,
    }
}

impl ThemeType {
    /// A kind as decoding yields it: the catch-all holds no known byte.
    pub open spec fn canonical(self) -> bool {
        self matches ThemeType::Other(b) ==> b > 5
    }

    /// The kind that a byte of the file stands for.
    pub fn from_byte(b: u8) -> (r: ThemeType)
        ensures
            r == theme_type_of(b),
            r.canonical(),
    {
        if b == 0 {
            ThemeType::NoTheme
        } else if b == 1 {
            ThemeType::BuiltIn
        } else if b == 2 {
            ThemeType::FromSD
        } else if b == 3 {
            ThemeType::Unk3
        } else if b == 4 {
            ThemeType::Unk4
        } else if b == 5 {
            ThemeType::Unk5
        } else {
            ThemeType::Other(b)
        }
    }

    /// The byte that stands for this kind in the file.
    pub fn to_byte(&self) -> (r: u8)
        ensures
            r == theme_type_byte(*self),
    {
        match self {
            ThemeType::NoTheme => 0,
            ThemeType::BuiltIn => 1,
            ThemeType::FromSD => 2,
            ThemeType::Unk3 => 3,
            ThemeType::Unk4 => 4,
            ThemeType::Unk5 => 5,
            ThemeType::Other(b) => *b,
        }
    }
}

/// A byte and its kind determine each other.
pub proof fn lemma_theme_type_round_trip(b: u8, t: ThemeType)
    ensures
        theme_type_byte(theme_type_of(b)) == b,
        theme_type_of(b).canonical(),
        t.canonical() ==> theme_type_of(theme_type_byte(t)) == t,
{
}

/// One theme slot: the standard theme or one of the shuffle themes.
#[derive(Clone, Copy, Debug, PartialEq, Eq)]
pub struct ThemeEntry {
    pub index: u32,
    pub dlc_titleid: u8,
    pub theme_type: ThemeType,
    pub null: [u8; 2],
}

impl ThemeEntry {
    /// `self` is what the eight bytes at `at` hold: the index at 0, the DLC
    /// title byte at 4, the kind at 5, two reserved bytes at 6.
    pub open spec fn decodes(self, bytes: Seq<u8>, at: int) -> bool {
        &&& self.index == le_u32(bytes, at)
        &&& self.dlc_titleid == bytes[at + 4]
        &&& self.theme_type == theme_type_of(bytes[at + 5])
        &&& self.null@ == bytes.subrange(at + 6, at + 8)
    }

    /// The eight bytes that hold `self`.
    pub open spec fn encoding(self) -> Seq<u8> {
        u32_le_bytes(self.index) + seq![self.dlc_titleid, theme_type_byte(self.theme_type)]
            + self.null@
    }

    /// Reads the entry at `at`.
    pub fn read(bytes: &[u8], at: usize) -> (r: ThemeEntry)
        requires
            at + THEME_ENTRY_SIZE <= bytes@.len(),
        ensures
            r.decodes(bytes@, at as int),
    {
        let len = bytes.len();
        assert(at + 8 <= len);
        ThemeEntry {
            index: read_u32(bytes, at),
            dlc_titleid: bytes[at + 4],
            theme_type: ThemeType::from_byte(bytes[at + 5]),
            null: read_array::<2>(bytes, at + 6),
        }
    }

    /// Appends the entry's eight bytes.
    pub fn write(&self, out: &mut Vec<u8>)
        ensures
            final(out)@ == old(out)@ + self.encoding(),
    {
        push_u32(out, self.index);
        out.push(self.dlc_titleid);
        out.push(self.theme_type.to_byte());
        push_bytes(out, &self.null);
        assert(out@ =~= old(out)@ + self.encoding());
    }
}

/// An entry read from a buffer encodes to the bytes it was read from.
pub proof fn lemma_theme_entry_bytes_round_trip(e: ThemeEntry, bytes: Seq<u8>, at: int)
    requires
        0 <= at,
        at + THEME_ENTRY_SIZE <= bytes.len(),
        e.decodes(bytes, at),
    ensures
        e.encoding() == bytes.subrange(at, at + 8),
{
    lemma_u32_bytes_round_trip(bytes, at);
    lemma_theme_type_round_trip(bytes[at + 5], e.theme_type);
    assert(e.encoding() =~= bytes.subrange(at, at + 8));
}

/// An entry is eight bytes, and where a buffer holds them the entry is read
/// from it.
pub proof fn lemma_theme_entry_read_back(e: ThemeEntry, bytes: Seq<u8>, at: int)
    requires
        0 <= at,
        at + THEME_ENTRY_SIZE <= bytes.len(),
        bytes.subrange(at, at + 8) == e.encoding(),
        e.theme_type.canonical(),
    ensures
        e.decodes(bytes, at),
{
    let enc = e.encoding();
    lemma_theme_entry_len(e);
    lemma_u32_value_round_trip(e.index);
    assert(enc.subrange(0, 4) =~= u32_le_bytes(e.index));
    lemma_stretch_of_stretch(bytes, at, 8, 0, 4);
    lemma_u32_read_back(bytes, at, e.index);
    assert(enc[4] == bytes[at + 4] && enc[5] == bytes[at + 5]);
    lemma_theme_type_round_trip(0, e.theme_type);
    assert(enc.subrange(6, 8) =~= e.null@);
    lemma_stretch_of_stretch(bytes, at, 8, 6, 8);
}

/// An entry is eight bytes.
pub proof fn lemma_theme_entry_len(e: ThemeEntry)
    ensures
        e.encoding().len() == THEME_ENTRY_SIZE,
{
    lemma_u32_value_round_trip(e.index);
    assert(e.null@.len() == 2);
}

} // verus!
