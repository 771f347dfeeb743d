//! The cache index, `Cache.dat`: which title's icon sits at which place of
//! the icon atlas.

use crate::endian::{
    le_u64, lemma_u32s_bytes_round_trip, lemma_u32s_len, lemma_u32s_read_back,
    lemma_u64_bytes_round_trip, lemma_u64_read_back, lemma_u64_value_round_trip, push_bytes,
    push_u32s, push_u64, read_array, read_u32_array, read_u64, u32s_at, u32s_le_bytes, u64_le_bytes,
};
use crate::layout::{
    all_wide, laid_out, lemma_laid_out_found, lemma_laid_out_len, lemma_laid_out_push,
    lemma_laid_out_record, lemma_stretch_of_stretch,
};
use crate::validate::{
    check_size, spec_check_size, FormatMismatch, StructureKind, CACHE_DAT_SIZE, SLOT_COUNT,
};
use vstd::prelude::*;

verus! {

/// Byte length of one cache entry.
pub const CACHE_ENTRY_SIZE: usize = 0x10;

/// Offset of the format version byte.
pub const FORMAT_VER_OFFSET: usize = 0x0;

/// Offset of the seven padding bytes after the format version.
pub const PAD_OFFSET: usize = 0x1;

/// Offset of the 360 entries.
pub const ENTRIES_OFFSET: usize = 0x8;

/// The fields follow one another without a gap and fill the file.
pub proof fn lemma_cache_dat_layout()
    ensures
        PAD_OFFSET == FORMAT_VER_OFFSET + 1,
        ENTRIES_OFFSET == PAD_OFFSET + 7,
        CACHE_DAT_SIZE == ENTRIES_OFFSET + CACHE_ENTRY_SIZE * SLOT_COUNT,
{
}

/// One place of the cache: the title whose icon is stored there.
#[derive(Clone, Copy, Debug, PartialEq, Eq)]
pub struct CacheDatEntry {
    pub titleid: u64,
    pub unk: [u32; 2],
}

impl CacheDatEntry {
    /// `self` is what the sixteen bytes at `at` hold: the title identifier
    /// at 0, two reserved words at 8.
    pub open spec fn decodes(self, bytes: Seq<u8>, at: int) -> bool {
        &&& self.titleid == le_u64(bytes, at)
        &&& u32s_at(self.unk@, bytes, at + 8)
    }

    /// The sixteen bytes that hold `self`.
    pub open spec fn encoding(self) -> Seq<u8> {
        u64_le_bytes(self.titleid) + u32s_le_bytes(self.unk@)
    }

    /// Reads the entry at `at`.
    pub fn read(bytes: &[u8], at: usize) -> (r: CacheDatEntry)
        requires
            at + CACHE_ENTRY_SIZE <= bytes@.len(),
        ensures
            r.decodes(bytes@, at as int),
    {
        let len = bytes.len();
        assert(at + 16 <= len);
        CacheDatEntry { titleid: read_u64(bytes, at), unk: read_u32_array::<2>(bytes, at + 8) }
    }

    /// Appends the entry's sixteen bytes.
    pub fn write(&self, out: &mut Vec<u8>)
        ensures
            final(out)@ == old(out)@ + self.encoding(),
    {
        push_u64(out, self.titleid);
        push_u32s(out, &self.unk);
        assert(out@ =~= old(out)@ + self.encoding());
    }
}

/// An entry read from a buffer encodes to the bytes it was read from.
pub proof fn lemma_cache_entry_bytes_round_trip(e: CacheDatEntry, bytes: Seq<u8>, at: int)
    requires
        0 <= at,
        at + CACHE_ENTRY_SIZE <= bytes.len(),
        e.decodes(bytes, at),
    ensures
        e.encoding() == bytes.subrange(at, at + 16),
{
    lemma_u64_bytes_round_trip(bytes, at);
    lemma_u32s_bytes_round_trip(e.unk@, bytes, at + 8);
    assert(e.encoding() =~= bytes.subrange(at, at + 16));
}

/// How one cache entry is stored.
pub open spec fn cache_entry_enc() -> spec_fn(CacheDatEntry) -> Seq<u8> {
    |e: CacheDatEntry| e.encoding()
}

/// `items` are the cache entries stored from `at` on.
pub open spec fn cache_entries_at(items: Seq<CacheDatEntry>, bytes: Seq<u8>, at: int) -> bool {
    forall|i: int| 0 <= i < items.len() ==> (#[trigger] items[i]).decodes(bytes, at + 16 * i)
}

/// Some entry of `entries` names the title `id`.
pub open spec fn holds_title(entries: Seq<CacheDatEntry>, id: u64) -> bool {
    exists|i: int| 0 <= i < entries.len() && (#[trigger] entries[i]).titleid == id
}

/// `i` is the first place of `entries` that names the title `id`.
pub open spec fn is_first_place(entries: Seq<CacheDatEntry>, id: u64, i: int) -> bool {
    &&& 0 <= i < entries.len()
    &&& entries[i].titleid == id
    &&& forall|j: int| 0 <= j < i ==> (#[trigger] entries[j]).titleid != id
}

/// The place that a lookup of `id` answers: the first that names it, or 0
/// where none does.
pub open spec fn spec_position(entries: Seq<CacheDatEntry>, id: u64) -> int {
    if holds_title(entries, id) {
        choose|i: int| is_first_place(entries, id, i)
    } else {
        0
    }
}

/// A first place is the only first place.
pub proof fn lemma_first_place_unique(entries: Seq<CacheDatEntry>, id: u64, i: int, j: int)
    requires
        is_first_place(entries, id, i),
        is_first_place(entries, id, j),
    ensures
        i == j,
{
    if i < j {
        assert(entries[i].titleid != id);
    } else if j < i {
        assert(entries[j].titleid != id);
    }
}

/// A lookup of a title that no entry names answers place 0: the same answer
/// as for a title found at place 0, so the caller cannot tell the two apart
/// by the place alone.
pub proof fn lemma_absent_title_is_place_zero(entries: Seq<CacheDatEntry>, id: u64)
    requires
        !holds_title(entries, id),
    ensures
        spec_position(entries, id) == 0,
{
}

/// The cache index. An entry's place in `entries` is also the place of its
/// icon record in the icon atlas.
#[derive(Clone, Debug, PartialEq, Eq)]
pub struct CacheDat {
    pub format_ver: u8,
    pub pad: [u8; 7],
    pub entries: [CacheDatEntry; 360],
}

impl CacheDat {
    /// `self` is what `bytes` hold, field by field at the fixed offsets.
    pub open spec fn decodes(&self, bytes: Seq<u8>) -> bool {
        &&& self.format_ver == bytes[0]
        &&& self.pad@ == bytes.subrange(0x1, 0x8)
        &&& cache_entries_at(self.entries@, bytes, 0x8)
    }

    /// The bytes that hold `self`.
    pub open spec fn encoding(&self) -> Seq<u8> {
        seq![self.format_ver] + self.pad@ + laid_out(self.entries@, cache_entry_enc())
    }

    /// Decodes a buffer of exactly the cache index's size. A buffer of any
    /// other length is reported and not read. The format version is not
    /// judged.
    pub fn decode(bytes: &[u8]) -> (r: Result<CacheDat, FormatMismatch>)
        ensures
            match r {
                Ok(c) => bytes@.len() == CACHE_DAT_SIZE && c.decodes(bytes@),
                Err(e) => spec_check_size(StructureKind::CacheDat, bytes@.len() as u64) == Err::<
                    (),
                    FormatMismatch,
                >(e),
            },
    {
        match check_size(StructureKind::CacheDat, bytes.len() as u64) {
            Err(e) => Err(e),
            Ok(_) => Ok(CacheDat::decode_fields(bytes)),
        }
    }

    /// Decodes the fields of a buffer whose size was checked.
    fn decode_fields(bytes: &[u8]) -> (r: CacheDat)
        requires
            bytes@.len() == CACHE_DAT_SIZE,
        ensures
            r.decodes(bytes@),
    {
        let first = CacheDatEntry::read(bytes, ENTRIES_OFFSET);
        let mut entries = [first;360];
        let mut i: usize = 0;
        while i < SLOT_COUNT
            invariant
                i <= SLOT_COUNT,
                bytes@.len() == CACHE_DAT_SIZE,
                forall|j: int|
                    0 <= j < i ==> (#[trigger] entries@[j]).decodes(bytes@, 0x8 + 16 * j),
            decreases SLOT_COUNT - i,
        {
            entries[i] = CacheDatEntry::read(bytes, ENTRIES_OFFSET + CACHE_ENTRY_SIZE * i);
            i += 1;
        }
        CacheDat {
            format_ver: bytes[FORMAT_VER_OFFSET],
            pad: read_array::<7>(bytes, PAD_OFFSET),
            entries,
        }
    }

    /// Encodes the index into the bytes of its file.
    pub fn encode(&self) -> (r: Vec<u8>)
        ensures
            r@ == self.encoding(),
    {
        let mut out: Vec<u8> = Vec::new();
        out.push(self.format_ver);
        push_bytes(&mut out, &self.pad);
        let ghost before = out@;
        let mut i: usize = 0;
        while i < SLOT_COUNT
            invariant
                i <= SLOT_COUNT,
                out@ == before + laid_out(self.entries@.take(i as int), cache_entry_enc()),
            decreases SLOT_COUNT - i,
        {
            proof {
                lemma_laid_out_push(
                    self.entries@.take(i as int),
                    cache_entry_enc(),
                    self.entries@[i as int],
                );
                assert(self.entries@.take(i as int).push(self.entries@[i as int])
                    =~= self.entries@.take(i + 1));
            }
            self.entries[i].write(&mut out);
            i += 1;
        }
        assert(self.entries@.take(i as int) =~= self.entries@);
        assert(out@ =~= self.encoding());
        out
    }

    /// The first place whose entry names the title `id`, if there is one.
    pub fn find(&self, id: u64) -> (r: Option<usize>)
        ensures
            match r {
                Some(i) => is_first_place(self.entries@, id, i as int),
                None => !holds_title(self.entries@, id),
            },
    {
        let mut i: usize = 0;
        while i < SLOT_COUNT
            invariant
                i <= SLOT_COUNT,
                forall|j: int| 0 <= j < i ==> (#[trigger] self.entries@[j]).titleid != id,
            decreases SLOT_COUNT - i,
        {
            if self.entries[i].titleid == id {
                return Some(i);
            }
            i += 1;
        }
        None
    }

    /// The place of the title's icon in the atlas: the first place whose
    /// entry names `id`. Where no entry names it the answer is place 0, as
    /// the format has it, and not an error; `find` tells the two apart.
    pub fn position(&self, id: u64) -> (r: usize)
        ensures
            r == spec_position(self.entries@, id),
            r < SLOT_COUNT,
            holds_title(self.entries@, id) ==> is_first_place(self.entries@, id, r as int),
            !holds_title(self.entries@, id) ==> r == 0,
    {
        match self.find(id) {
            Some(i) => {
                proof {
                    let c = choose|k: int| is_first_place(self.entries@, id, k);
                    lemma_first_place_unique(self.entries@, id, i as int, c);
                }
                i
            },
            None => 0,
        }
    }
}

/// Decoding a buffer and encoding the result gives the buffer back, for
/// every buffer of the cache index's size.
pub proof fn lemma_cache_dat_bytes_round_trip(c: CacheDat, bytes: Seq<u8>)
    requires
        bytes.len() == CACHE_DAT_SIZE,
        c.decodes(bytes),
    ensures
        c.encoding() == bytes,
{
    assert forall|i: int| 0 <= i < 360 implies #[trigger] cache_entry_enc()(c.entries@[i])
        == bytes.subrange(0x8 + 16 * i, 0x8 + 16 * i + 16) by {
        lemma_cache_entry_bytes_round_trip(c.entries@[i], bytes, 0x8 + 16 * i);
    }
    lemma_laid_out_found(c.entries@, cache_entry_enc(), 16, bytes, 0x8);
    let head1 = seq![c.format_ver] + c.pad@;
    assert(head1 =~= bytes.subrange(0, 0x8));
    assert(head1 + laid_out(c.entries@, cache_entry_enc()) =~= bytes);
}

/// An entry is sixteen bytes.
pub proof fn lemma_cache_entry_len(e: CacheDatEntry)
    ensures
        e.encoding().len() == CACHE_ENTRY_SIZE,
{
    lemma_u64_value_round_trip(e.titleid);
    lemma_u32s_len(e.unk@);
}

/// Where a buffer holds the bytes of an entry, the entry is read from it.
pub proof fn lemma_cache_entry_read_back(e: CacheDatEntry, bytes: Seq<u8>, at: int)
    requires
        0 <= at,
        at + CACHE_ENTRY_SIZE <= bytes.len(),
        bytes.subrange(at, at + 16) == e.encoding(),
    ensures
        e.decodes(bytes, at),
{
    let enc = e.encoding();
    lemma_cache_entry_len(e);
    lemma_u64_value_round_trip(e.titleid);
    assert(enc.subrange(0, 8) =~= u64_le_bytes(e.titleid));
    lemma_stretch_of_stretch(bytes, at, 16, 0, 8);
    lemma_u64_read_back(bytes, at, e.titleid);
    assert(enc.subrange(8, 16) =~= u32s_le_bytes(e.unk@));
    lemma_stretch_of_stretch(bytes, at, 16, 8, 16);
    lemma_u32s_read_back(e.unk@, bytes, at + 8);
}

/// Encoding an index gives a buffer of the cache index's size, and decoding
/// that buffer gives the index back.
pub proof fn lemma_cache_dat_value_round_trip(c: CacheDat)
    ensures
        c.encoding().len() == CACHE_DAT_SIZE,
        c.decodes(c.encoding()),
{
    let enc = c.encoding();
    assert(all_wide(c.entries@, cache_entry_enc(), 16)) by {
        assert forall|i: int| 0 <= i < 360 implies (#[trigger] cache_entry_enc()(
            c.entries@[i],
        )).len() == 16 by {
            lemma_cache_entry_len(c.entries@[i]);
        }
    }
    lemma_laid_out_len(c.entries@, cache_entry_enc(), 16);
    assert(enc.len() == 0x1688);
    assert(enc[0] == c.format_ver);
    assert(enc.subrange(0x1, 0x8) =~= c.pad@);
    assert(enc.subrange(0x8, 0x1688) =~= laid_out(c.entries@, cache_entry_enc()));
    assert forall|i: int| 0 <= i < 360 implies (#[trigger] c.entries@[i]).decodes(
        enc,
        0x8 + 16 * i,
    ) by {
        lemma_laid_out_record(c.entries@, cache_entry_enc(), 16, i);
        assert(enc.subrange(0x8 + 16 * i, 0x8 + 16 * i + 16) =~= enc.subrange(
            0x8,
            0x1688,
        ).subrange(16 * i, 16 * i + 16));
        lemma_cache_entry_read_back(c.entries@[i], enc, 0x8 + 16 * i);
    }
}

} // verus!
