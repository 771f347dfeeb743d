//! Icon records of the icon atlas, `CacheD.dat`.
//!
//! A record is 0x36C0 bytes and comes in two shapes of that one size: the
//! rich shape with titles, settings and two images, and the legacy shape,
//! which is image data only. Nothing in the bytes says which shape a record
//! has; the caller knows it from the title and asks for the reading it
//! wants.

use crate::endian::{
    le_u16, le_u32, le_u64, lemma_u16_bytes_round_trip, lemma_u16_read_back,
    lemma_u16_value_round_trip, lemma_u32_bytes_round_trip, lemma_u32_read_back,
    lemma_u32_value_round_trip, lemma_u64_bytes_round_trip, lemma_u64_read_back,
    lemma_u64_value_round_trip, push_bytes, push_u16, push_u32, push_u64, read_array, read_u16,
    read_u32, read_u64, u16_le_bytes, u32_le_bytes, u64_le_bytes,
};
use crate::layout::{
    all_wide, laid_out, lemma_append_piece, lemma_laid_out_found, lemma_laid_out_len,
    lemma_laid_out_push, lemma_laid_out_record, lemma_stretch_join, lemma_stretch_of_stretch,
};
use crate::validate::{
    check_size, spec_check_size, FormatMismatch, StructureKind, CACHE_D_DAT_SIZE, ICON_SIZE,
    SLOT_COUNT,
};
use vstd::prelude::*;

verus! {

/// Byte length of one block of titles.
pub const APP_TITLES_SIZE: usize = 0x200;

/// Byte length of the ratings.
pub const GAME_RATINGS_SIZE: usize = 0x10;

/// Byte length of the settings.
pub const APP_SETTINGS_SIZE: usize = 0x30;

/// Offset of the first block of titles in a rich icon record.
pub const TITLES_OFFSET: usize = 0x8;

/// Offset of the four unused blocks of titles.
pub const TITLE_UNUSED_OFFSET: usize = 0x1808;

/// Offset of the settings.
pub const SETTINGS_OFFSET: usize = 0x2008;

/// Offset of the reserved word after the settings.
pub const NULL_OFFSET: usize = 0x2038;

/// Offset of the small image.
pub const ICON_SMALL_OFFSET: usize = 0x2040;

/// Offset of the large image.
pub const ICON_LARGE_OFFSET: usize = 0x24C0;

/// Offset, inside the settings, of the two bytes that no field covers.
pub const SETTINGS_PADDING_OFFSET: usize = 0x26;

/// The fields of a rich icon record follow one another without a gap and
/// fill the record.
pub proof fn lemma_ctr_icon_layout()
    ensures
        TITLES_OFFSET == 4 + 2 + 2,
        TITLE_UNUSED_OFFSET == TITLES_OFFSET + 12 * APP_TITLES_SIZE,
        SETTINGS_OFFSET == TITLE_UNUSED_OFFSET + 4 * APP_TITLES_SIZE,
        NULL_OFFSET == SETTINGS_OFFSET + APP_SETTINGS_SIZE,
        ICON_SMALL_OFFSET == NULL_OFFSET + 8,
        ICON_LARGE_OFFSET == ICON_SMALL_OFFSET + 0x480,
        ICON_SIZE == ICON_LARGE_OFFSET + 0x1200,
        APP_TITLES_SIZE == 0x80 + 0x100 + 0x80,
        GAME_RATINGS_SIZE == 11 + 5,
        SETTINGS_PADDING_OFFSET == GAME_RATINGS_SIZE + 4 + 4 + 8 + 4 + 1 + 1,
        APP_SETTINGS_SIZE == SETTINGS_PADDING_OFFSET + 2 + 4 + 4,
{
}

/// The names of a title in one language, each a block of UTF-16LE code
/// units padded with NUL.
#[derive(Clone, Copy, Debug, PartialEq, Eq)]
pub struct AppTitles {
    pub short: [u8; 0x80],
    pub long: [u8; 0x100],
    pub publisher: [u8; 0x80],
}

impl AppTitles {
    /// `self` is what the 0x200 bytes at `at` hold.
    pub open spec fn decodes(self, bytes: Seq<u8>, at: int) -> bool {
        &&& self.short@ == bytes.subrange(at, at + 0x80)
        &&& self.long@ == bytes.subrange(at + 0x80, at + 0x180)
        &&& self.publisher@ == bytes.subrange(at + 0x180, at + 0x200)
    }

    /// The 0x200 bytes that hold `self`.
    pub open spec fn encoding(self) -> Seq<u8> {
        self.short@ + self.long@ + self.publisher@
    }

    /// Reads the block at `at`.
    pub fn read(bytes: &[u8], at: usize) -> (r: AppTitles)
        requires
            at + APP_TITLES_SIZE <= bytes@.len(),
        ensures
            r.decodes(bytes@, at as int),
    {
        let len = bytes.len();
        assert(at + 0x200 <= len);
        AppTitles {
            short: read_array::<0x80>(bytes, at),
            long: read_array::<0x100>(bytes, at + 0x80),
            publisher: read_array::<0x80>(bytes, at + 0x180),
        }
    }

    /// Appends the block's 0x200 bytes.
    pub fn write(&self, out: &mut Vec<u8>)
        ensures
            final(out)@ == old(out)@ + self.encoding(),
    {
        push_bytes(out, &self.short);
        push_bytes(out, &self.long);
        push_bytes(out, &self.publisher);
        assert(out@ =~= old(out)@ + self.encoding());
    }
}

/// A block read from a buffer encodes to the bytes it was read from.
pub proof fn lemma_app_titles_bytes_round_trip(t: AppTitles, bytes: Seq<u8>, at: int)
    requires
        0 <= at,
        at + APP_TITLES_SIZE <= bytes.len(),
        t.decodes(bytes, at),
    ensures
        t.encoding() == bytes.subrange(at, at + 0x200),
{
    assert(t.encoding() =~= bytes.subrange(at, at + 0x200));
}

/// Age ratings, one byte per rating board.
#[derive(Clone, Copy, Debug, PartialEq, Eq)]
pub struct GameRatings {
    pub cero: u8,
    pub esrb: u8,
    pub null0: u8,
    pub usk: u8,
    pub pegi: u8,
    pub null1: u8,
    pub pegi_prt: u8,
    pub pegi_bffc: u8,
    pub cob: u8,
    pub grb: u8,
    pub cgsrr: u8,
    pub null2: [u8; 5],
}

impl GameRatings {
    pub const HAS_RATING: u32 = 0x80;

    pub const RATING_PENDING: u32 = 0x40;

    pub const NO_RESTRICTION: u32 = 0x20;

    pub const AGE_MASK: u32 = 0x1F;

    /// `self` is what the sixteen bytes at `at` hold.
    pub open spec fn decodes(self, bytes: Seq<u8>, at: int) -> bool {
        &&& self.cero == bytes[at]
        &&& self.esrb == bytes[at + 1]
        &&& self.null0 == bytes[at + 2]
        &&& self.usk == bytes[at + 3]
        &&& self.pegi == bytes[at + 4]
        &&& self.null1 == bytes[at + 5]
        &&& self.pegi_prt == bytes[at + 6]
        &&& self.pegi_bffc == bytes[at + 7]
        &&& self.cob == bytes[at + 8]
        &&& self.grb == bytes[at + 9]
        &&& self.cgsrr == bytes[at + 10]
        &&& self.null2@ == bytes.subrange(at + 11, at + 16)
    }

    /// The sixteen bytes that hold `self`.
    pub open spec fn encoding(self) -> Seq<u8> {
        seq![
            self.cero,
            self.esrb,
            self.null0,
            self.usk,
            self.pegi,
            self.null1,
            self.pegi_prt,
            self.pegi_bffc,
            self.cob,
            self.grb,
            self.cgsrr,
        ] + self.null2@
    }

    /// Reads the ratings at `at`.
    pub fn read(bytes: &[u8], at: usize) -> (r: GameRatings)
        requires
            at + GAME_RATINGS_SIZE <= bytes@.len(),
        ensures
            r.decodes(bytes@, at as int),
    {
        let len = bytes.len();
        assert(at + 16 <= len);
        GameRatings {
            cero: bytes[at],
            esrb: bytes[at + 1],
            null0: bytes[at + 2],
            usk: bytes[at + 3],
            pegi: bytes[at + 4],
            null1: bytes[at + 5],
            pegi_prt: bytes[at + 6],
            pegi_bffc: bytes[at + 7],
            cob: bytes[at + 8],
            grb: bytes[at + 9],
            cgsrr: bytes[at + 10],
            null2: read_array::<5>(bytes, at + 11),
        }
    }

    /// Appends the ratings' sixteen bytes.
    pub fn write(&self, out: &mut Vec<u8>)
        ensures
            final(out)@ == old(out)@ + self.encoding(),
    {
        out.push(self.cero);
        out.push(self.esrb);
        out.push(self.null0);
        out.push(self.usk);
        out.push(self.pegi);
        out.push(self.null1);
        out.push(self.pegi_prt);
        out.push(self.pegi_bffc);
        out.push(self.cob);
        out.push(self.grb);
        out.push(self.cgsrr);
        push_bytes(out, &self.null2);
        assert(out@ =~= old(out)@ + self.encoding());
    }
}

/// Ratings read from a buffer encode to the bytes they were read from.
pub proof fn lemma_game_ratings_bytes_round_trip(g: GameRatings, bytes: Seq<u8>, at: int)
    requires
        0 <= at,
        at + GAME_RATINGS_SIZE <= bytes.len(),
        g.decodes(bytes, at),
    ensures
        g.encoding() == bytes.subrange(at, at + 16),
{
    assert(g.encoding() =~= bytes.subrange(at, at + 16));
}

/// Settings of a title. The default animation frame is a 32-bit float in
/// the file; it is held here as its bit pattern, which decoding and
/// encoding carry through unchanged.
#[derive(Clone, Copy, Debug, PartialEq, Eq)]
pub struct AppSettings {
    pub ratings: GameRatings,
    pub regions: u32,
    pub match_maker_id: u32,
    pub match_maker_bit_id: u64,
    pub flags: u32,
    pub eula_minor: u8,
    pub eula_major: u8,
    pub optimal_animation_default_frame: u32,
    pub streetpass_id: u32,
}

impl AppSettings {
    pub const REGION_JPN: u32 = 1;

    pub const REGION_USA: u32 = 2;

    pub const REGION_EUR: u32 = 4;

    pub const REGION_AUS: u32 = 8;

    pub const REGION_CHN: u32 = 0x10;

    pub const REGION_KOR: u32 = 0x20;

    pub const REGION_TWN: u32 = 0x40;

    pub const FLAGS_VISIBLE: u32 = 1;

    pub const FLAGS_AUTOBOOT: u32 = 2;

    pub const FLAGS_ALLOW_3D: u32 = 4;

    pub const FLAGS_REQUIRE_EULA: u32 = 8;

    pub const FLAGS_AUTOSAVE: u32 = 0x10;

    pub const FLAGS_EXBANNER: u32 = 0x20;

    pub const FLAGS_RATING_REQUIRED: u32 = 0x40;

    pub const FLAGS_HAS_SAVE: u32 = 0x80;

    pub const FLAGS_RECORD_USAGE: u32 = 0x100;

    pub const FLAGS_DISABLE_SAVE_BACKUP: u32 = 0x400;

    pub const FLAGS_N3DS_ONLY: u32 = 0x1000;

    /// `self` is what the 0x30 bytes at `at` hold. The two bytes at 0x26
    /// belong to no field.
    pub open spec fn decodes(self, bytes: Seq<u8>, at: int) -> bool {
        &&& self.ratings.decodes(bytes, at)
        &&& self.regions == le_u32(bytes, at + 0x10)
        &&& self.match_maker_id == le_u32(bytes, at + 0x14)
        &&& self.match_maker_bit_id == le_u64(bytes, at + 0x18)
        &&& self.flags == le_u32(bytes, at + 0x20)
        &&& self.eula_minor == bytes[at + 0x24]
        &&& self.eula_major == bytes[at + 0x25]
        &&& self.optimal_animation_default_frame == le_u32(bytes, at + 0x28)
        &&& self.streetpass_id == le_u32(bytes, at + 0x2C)
    }

    /// The 0x30 bytes that hold `self`, with zero in the two bytes that no
    /// field covers.
    pub open spec fn encoding(self) -> Seq<u8> {
        self.ratings.encoding() + u32_le_bytes(self.regions) + u32_le_bytes(self.match_maker_id)
            + u64_le_bytes(self.match_maker_bit_id) + u32_le_bytes(self.flags) + seq![
            self.eula_minor,
            self.eula_major,
            0u8,
            0u8,
        ] + u32_le_bytes(self.optimal_animation_default_frame) + u32_le_bytes(self.streetpass_id)
    }

    /// Reads the settings at `at`.
    pub fn read(bytes: &[u8], at: usize) -> (r: AppSettings)
        requires
            at + APP_SETTINGS_SIZE <= bytes@.len(),
        ensures
            r.decodes(bytes@, at as int),
    {
        let len = bytes.len();
        assert(at + 0x30 <= len);
        AppSettings {
            ratings: GameRatings::read(bytes, at),
            regions: read_u32(bytes, at + 0x10),
            match_maker_id: read_u32(bytes, at + 0x14),
            match_maker_bit_id: read_u64(bytes, at + 0x18),
            flags: read_u32(bytes, at + 0x20),
            eula_minor: bytes[at + 0x24],
            eula_major: bytes[at + 0x25],
            optimal_animation_default_frame: read_u32(bytes, at + 0x28),
            streetpass_id: read_u32(bytes, at + 0x2C),
        }
    }

    /// Appends the settings' 0x30 bytes.
    pub fn write(&self, out: &mut Vec<u8>)
        ensures
            final(out)@ == old(out)@ + self.encoding(),
    {
        self.ratings.write(out);
        push_u32(out, self.regions);
        push_u32(out, self.match_maker_id);
        push_u64(out, self.match_maker_bit_id);
        push_u32(out, self.flags);
        out.push(self.eula_minor);
        out.push(self.eula_major);
        out.push(0);
        out.push(0);
        push_u32(out, self.optimal_animation_default_frame);
        push_u32(out, self.streetpass_id);
        assert(out@ =~= old(out)@ + self.encoding());
    }
}

/// `bytes` with zero in the two bytes of the settings at `at` that no field
/// covers.
pub open spec fn settings_padding_cleared(bytes: Seq<u8>, at: int) -> Seq<u8> {
    bytes.update(at + 0x26, 0u8).update(at + 0x27, 0u8)
}

/// Clearing the padding of the settings at `at` leaves every stretch that
/// does not reach into it as it was.
pub proof fn lemma_cleared_keeps(bytes: Seq<u8>, at: int, from: int, to: int)
    requires
        0 <= at,
        at + 0x30 <= bytes.len(),
        0 <= from <= to <= bytes.len(),
        to <= at + 0x26 || at + 0x28 <= from,
    ensures
        settings_padding_cleared(bytes, at).subrange(from, to) == bytes.subrange(from, to),
{
    assert(settings_padding_cleared(bytes, at).subrange(from, to) =~= bytes.subrange(from, to));
}

/// After clearing, the four bytes from the EULA version on are the version
/// and two zeros.
proof fn lemma_cleared_padding(bytes: Seq<u8>, at: int)
    requires
        0 <= at,
        at + 0x30 <= bytes.len(),
    ensures
        settings_padding_cleared(bytes, at).subrange(at + 0x24, at + 0x28) == seq![
            bytes[at + 0x24],
            bytes[at + 0x25],
            0u8,
            0u8,
        ],
{
    assert(settings_padding_cleared(bytes, at).subrange(at + 0x24, at + 0x28) =~= seq![
        bytes[at + 0x24],
        bytes[at + 0x25],
        0u8,
        0u8,
    ]);
}

/// Settings read from a buffer encode to the bytes they were read from, but
/// for the two bytes that no field covers.
pub proof fn lemma_app_settings_bytes_round_trip(s: AppSettings, bytes: Seq<u8>, at: int)
    requires
        0 <= at,
        at + APP_SETTINGS_SIZE <= bytes.len(),
        s.decodes(bytes, at),
    ensures
        s.encoding() == settings_padding_cleared(bytes, at).subrange(at, at + 0x30),
{
    lemma_game_ratings_bytes_round_trip(s.ratings, bytes, at);
    lemma_cleared_keeps(bytes, at, at, at + 0x10);
    lemma_u32_bytes_round_trip(bytes, at + 0x10);
    lemma_cleared_keeps(bytes, at, at + 0x10, at + 0x14);
    lemma_u32_bytes_round_trip(bytes, at + 0x14);
    lemma_cleared_keeps(bytes, at, at + 0x14, at + 0x18);
    lemma_u64_bytes_round_trip(bytes, at + 0x18);
    lemma_cleared_keeps(bytes, at, at + 0x18, at + 0x20);
    lemma_u32_bytes_round_trip(bytes, at + 0x20);
    lemma_cleared_keeps(bytes, at, at + 0x20, at + 0x24);
    lemma_cleared_padding(bytes, at);
    lemma_u32_bytes_round_trip(bytes, at + 0x28);
    lemma_cleared_keeps(bytes, at, at + 0x28, at + 0x2C);
    lemma_u32_bytes_round_trip(bytes, at + 0x2C);
    lemma_cleared_keeps(bytes, at, at + 0x2C, at + 0x30);
    lemma_eight_stretches_join(settings_padding_cleared(bytes, at), at);
}

/// The eight stretches of settings, joined, are the settings' stretch.
proof fn lemma_eight_stretches_join(c: Seq<u8>, at: int)
    requires
        0 <= at,
        at + 0x30 <= c.len(),
    ensures
        c.subrange(at, at + 0x10) + c.subrange(at + 0x10, at + 0x14) + c.subrange(
            at + 0x14,
            at + 0x18,
        ) + c.subrange(at + 0x18, at + 0x20) + c.subrange(at + 0x20, at + 0x24) + c.subrange(
            at + 0x24,
            at + 0x28,
        ) + c.subrange(at + 0x28, at + 0x2C) + c.subrange(at + 0x2C, at + 0x30) == c.subrange(
            at,
            at + 0x30,
        ),
{
    lemma_stretch_join(c, at, at + 0x10, at + 0x14);
    lemma_stretch_join(c, at, at + 0x14, at + 0x18);
    lemma_stretch_join(c, at, at + 0x18, at + 0x20);
    lemma_stretch_join(c, at, at + 0x20, at + 0x24);
    lemma_stretch_join(c, at, at + 0x24, at + 0x28);
    lemma_stretch_join(c, at, at + 0x28, at + 0x2C);
    lemma_stretch_join(c, at, at + 0x2C, at + 0x30);
}

/// How one block of titles is stored.
pub open spec fn app_titles_enc() -> spec_fn(AppTitles) -> Seq<u8> {
    |t: AppTitles| t.encoding()
}

/// `items` are the blocks of titles stored from `at` on.
pub open spec fn app_titles_at(items: Seq<AppTitles>, bytes: Seq<u8>, at: int) -> bool {
    forall|i: int| 0 <= i < items.len() ==> (#[trigger] items[i]).decodes(bytes, at + 0x200 * i)
}

/// The two images of a rich icon record.
pub type IconGfxSmall = [u8; 0x480];

pub type IconGfxLarge = [u8; 0x1200];

/// The rich shape of an icon record: titles in every language, settings and
/// two images.
#[derive(Clone, Copy, Debug, PartialEq, Eq)]
pub struct CtrIcon {
    pub magic: [u8; 4],
    pub version: u16,
    pub reserved: u16,
    pub title_jp: AppTitles,
    pub title_en: AppTitles,
    pub title_fr: AppTitles,
    pub title_de: AppTitles,
    pub title_it: AppTitles,
    pub title_es: AppTitles,
    pub title_ch: AppTitles,
    pub title_kr: AppTitles,
    pub title_nl: AppTitles,
    pub title_pt: AppTitles,
    pub title_ru: AppTitles,
    pub title_tw: AppTitles,
    pub title_unused: [AppTitles; 4],
    pub settings: AppSettings,
    pub null: u64,
    pub icon_small: IconGfxSmall,
    pub icon_large: IconGfxLarge,
}

impl CtrIcon {
    /// `self` is what `bytes` hold, field by field at the fixed offsets.
    pub open spec fn decodes(&self, bytes: Seq<u8>) -> bool {
        &&& self.magic@ == bytes.subrange(0x0, 0x4)
        &&& self.version == le_u16(bytes, 0x4)
        &&& self.reserved == le_u16(bytes, 0x6)
        &&& self.title_jp.decodes(bytes, 0x8)
        &&& self.title_en.decodes(bytes, 0x208)
        &&& self.title_fr.decodes(bytes, 0x408)
        &&& self.title_de.decodes(bytes, 0x608)
        &&& self.title_it.decodes(bytes, 0x808)
        &&& self.title_es.decodes(bytes, 0xA08)
        &&& self.title_ch.decodes(bytes, 0xC08)
        &&& self.title_kr.decodes(bytes, 0xE08)
        &&& self.title_nl.decodes(bytes, 0x1008)
        &&& self.title_pt.decodes(bytes, 0x1208)
        &&& self.title_ru.decodes(bytes, 0x1408)
        &&& self.title_tw.decodes(bytes, 0x1608)
        &&& app_titles_at(self.title_unused@, bytes, 0x1808)
        &&& self.settings.decodes(bytes, 0x2008)
        &&& self.null == le_u64(bytes, 0x2038)
        &&& self.icon_small@ == bytes.subrange(0x2040, 0x24C0)
        &&& self.icon_large@ == bytes.subrange(0x24C0, 0x36C0)
    }

    /// The bytes that hold `self`.
    pub open spec fn encoding(&self) -> Seq<u8> {
        self.magic@ + u16_le_bytes(self.version) + u16_le_bytes(self.reserved)
            + self.title_jp.encoding()
            + self.title_en.encoding()
            + self.title_fr.encoding()
            + self.title_de.encoding()
            + self.title_it.encoding()
            + self.title_es.encoding()
            + self.title_ch.encoding()
            + self.title_kr.encoding()
            + self.title_nl.encoding()
            + self.title_pt.encoding()
            + self.title_ru.encoding()
            + self.title_tw.encoding()
            + laid_out(self.title_unused@, app_titles_enc()) + self.settings.encoding()
            + u64_le_bytes(self.null) + self.icon_small@ + self.icon_large@
    }

    /// Reads a record of exactly the icon size as a rich icon. A buffer of
    /// any other length is reported and not read.
    pub fn decode(bytes: &[u8]) -> (r: Result<CtrIcon, FormatMismatch>)
        ensures
            match r {
                Ok(c) => bytes@.len() == ICON_SIZE && c.decodes(bytes@),
                Err(e) => spec_check_size(StructureKind::Icon, bytes@.len() as u64) == Err::<
                    (),
                    FormatMismatch,
                >(e),
            },
    {
        match check_size(StructureKind::Icon, bytes.len() as u64) {
            Err(e) => Err(e),
            Ok(_) => Ok(CtrIcon::decode_fields(bytes)),
        }
    }

    /// Decodes the fields of a buffer whose size was checked.
    fn decode_fields(bytes: &[u8]) -> (r: CtrIcon)
        requires
            bytes@.len() == ICON_SIZE,
        ensures
            r.decodes(bytes@),
    {
        let first = AppTitles::read(bytes, TITLE_UNUSED_OFFSET);
        let mut title_unused = [first;4];
        let mut i: usize = 0;
        while i < 4
            invariant
                i <= 4,
                bytes@.len() == ICON_SIZE,
                forall|j: int|
                    0 <= j < i ==> (#[trigger] title_unused@[j]).decodes(
                        bytes@,
                        0x1808 + 0x200 * j,
                    ),
            decreases 4 - i,
        {
            title_unused[i] = AppTitles::read(bytes, TITLE_UNUSED_OFFSET + APP_TITLES_SIZE * i);
            i += 1;
        }
        CtrIcon {
            magic: read_array::<4>(bytes, 0),
            version: read_u16(bytes, 4),
            reserved: read_u16(bytes, 6),
            title_jp: AppTitles::read(bytes, 0x8),
            title_en: AppTitles::read(bytes, 0x208),
            title_fr: AppTitles::read(bytes, 0x408),
            title_de: AppTitles::read(bytes, 0x608),
            title_it: AppTitles::read(bytes, 0x808),
            title_es: AppTitles::read(bytes, 0xA08),
            title_ch: AppTitles::read(bytes, 0xC08),
            title_kr: AppTitles::read(bytes, 0xE08),
            title_nl: AppTitles::read(bytes, 0x1008),
            title_pt: AppTitles::read(bytes, 0x1208),
            title_ru: AppTitles::read(bytes, 0x1408),
            title_tw: AppTitles::read(bytes, 0x1608),
            title_unused,
            settings: AppSettings::read(bytes, SETTINGS_OFFSET),
            null: read_u64(bytes, NULL_OFFSET),
            icon_small: read_array::<0x480>(bytes, ICON_SMALL_OFFSET),
            icon_large: read_array::<0x1200>(bytes, ICON_LARGE_OFFSET),
        }
    }

    /// Encodes the record into its 0x36C0 bytes.
    pub fn encode(&self) -> (r: Vec<u8>)
        ensures
            r@ == self.encoding(),
    {
        let mut out: Vec<u8> = Vec::new();
        push_bytes(&mut out, &self.magic);
        push_u16(&mut out, self.version);
        push_u16(&mut out, self.reserved);
        self.title_jp.write(&mut out);
        self.title_en.write(&mut out);
        self.title_fr.write(&mut out);
        self.title_de.write(&mut out);
        self.title_it.write(&mut out);
        self.title_es.write(&mut out);
        self.title_ch.write(&mut out);
        self.title_kr.write(&mut out);
        self.title_nl.write(&mut out);
        self.title_pt.write(&mut out);
        self.title_ru.write(&mut out);
        self.title_tw.write(&mut out);
        let ghost before = out@;
        let mut i: usize = 0;
        while i < 4
            invariant
                i <= 4,
                out@ == before + laid_out(self.title_unused@.take(i as int), app_titles_enc()),
            decreases 4 - i,
        {
            proof {
                lemma_laid_out_push(
                    self.title_unused@.take(i as int),
                    app_titles_enc(),
                    self.title_unused@[i as int],
                );
                assert(self.title_unused@.take(i as int).push(self.title_unused@[i as int])
                    =~= self.title_unused@.take(i + 1));
            }
            self.title_unused[i].write(&mut out);
            i += 1;
        }
        assert(self.title_unused@.take(i as int) =~= self.title_unused@);
        self.settings.write(&mut out);
        push_u64(&mut out, self.null);
        push_bytes(&mut out, &self.icon_small);
        push_bytes(&mut out, &self.icon_large);
        assert(out@ =~= self.encoding());
        out
    }
}

/// Decoding a record as a rich icon and encoding the result gives the
/// record back, for every buffer of the icon size, but for the two bytes of
/// the settings that no field covers: they come back as zero.
pub proof fn lemma_ctr_icon_bytes_round_trip(c: CtrIcon, bytes: Seq<u8>)
    requires
        bytes.len() == ICON_SIZE,
        c.decodes(bytes),
    ensures
        c.encoding() == settings_padding_cleared(bytes, 0x2008),
{
    let cleared = settings_padding_cleared(bytes, 0x2008);
    assert(c.magic@ == cleared.subrange(0x0, 0x4)) by {
        lemma_cleared_keeps(bytes, 0x2008, 0x0, 0x4);
    }
    assert(u16_le_bytes(c.version) == cleared.subrange(0x4, 0x6)) by {
        lemma_u16_bytes_round_trip(bytes, 0x4);
        lemma_cleared_keeps(bytes, 0x2008, 0x4, 0x6);
    }
    lemma_stretch_join(cleared, 0, 0x4, 0x6);
    assert(u16_le_bytes(c.reserved) == cleared.subrange(0x6, 0x8)) by {
        lemma_u16_bytes_round_trip(bytes, 0x6);
        lemma_cleared_keeps(bytes, 0x2008, 0x6, 0x8);
    }
    lemma_stretch_join(cleared, 0, 0x6, 0x8);
    assert(c.title_jp.encoding() == cleared.subrange(0x8, 0x208)) by {
        lemma_app_titles_bytes_round_trip(c.title_jp, bytes, 0x8);
        lemma_cleared_keeps(bytes, 0x2008, 0x8, 0x208);
    }
    lemma_stretch_join(cleared, 0, 0x8, 0x208);
    assert(c.title_en.encoding() == cleared.subrange(0x208, 0x408)) by {
        lemma_app_titles_bytes_round_trip(c.title_en, bytes, 0x208);
        lemma_cleared_keeps(bytes, 0x2008, 0x208, 0x408);
    }
    lemma_stretch_join(cleared, 0, 0x208, 0x408);
    assert(c.title_fr.encoding() == cleared.subrange(0x408, 0x608)) by {
        lemma_app_titles_bytes_round_trip(c.title_fr, bytes, 0x408);
        lemma_cleared_keeps(bytes, 0x2008, 0x408, 0x608);
    }
    lemma_stretch_join(cleared, 0, 0x408, 0x608);
    assert(c.title_de.encoding() == cleared.subrange(0x608, 0x808)) by {
        lemma_app_titles_bytes_round_trip(c.title_de, bytes, 0x608);
        lemma_cleared_keeps(bytes, 0x2008, 0x608, 0x808);
    }
    lemma_stretch_join(cleared, 0, 0x608, 0x808);
    assert(c.title_it.encoding() == cleared.subrange(0x808, 0xA08)) by {
        lemma_app_titles_bytes_round_trip(c.title_it, bytes, 0x808);
        lemma_cleared_keeps(bytes, 0x2008, 0x808, 0xA08);
    }
    lemma_stretch_join(cleared, 0, 0x808, 0xA08);
    assert(c.title_es.encoding() == cleared.subrange(0xA08, 0xC08)) by {
        lemma_app_titles_bytes_round_trip(c.title_es, bytes, 0xA08);
        lemma_cleared_keeps(bytes, 0x2008, 0xA08, 0xC08);
    }
    lemma_stretch_join(cleared, 0, 0xA08, 0xC08);
    assert(c.title_ch.encoding() == cleared.subrange(0xC08, 0xE08)) by {
        lemma_app_titles_bytes_round_trip(c.title_ch, bytes, 0xC08);
        lemma_cleared_keeps(bytes, 0x2008, 0xC08, 0xE08);
    }
    lemma_stretch_join(cleared, 0, 0xC08, 0xE08);
    assert(c.title_kr.encoding() == cleared.subrange(0xE08, 0x1008)) by {
        lemma_app_titles_bytes_round_trip(c.title_kr, bytes, 0xE08);
        lemma_cleared_keeps(bytes, 0x2008, 0xE08, 0x1008);
    }
    lemma_stretch_join(cleared, 0, 0xE08, 0x1008);
    assert(c.title_nl.encoding() == cleared.subrange(0x1008, 0x1208)) by {
        lemma_app_titles_bytes_round_trip(c.title_nl, bytes, 0x1008);
        lemma_cleared_keeps(bytes, 0x2008, 0x1008, 0x1208);
    }
    lemma_stretch_join(cleared, 0, 0x1008, 0x1208);
    assert(c.title_pt.encoding() == cleared.subrange(0x1208, 0x1408)) by {
        lemma_app_titles_bytes_round_trip(c.title_pt, bytes, 0x1208);
        lemma_cleared_keeps(bytes, 0x2008, 0x1208, 0x1408);
    }
    lemma_stretch_join(cleared, 0, 0x1208, 0x1408);
    assert(c.title_ru.encoding() == cleared.subrange(0x1408, 0x1608)) by {
        lemma_app_titles_bytes_round_trip(c.title_ru, bytes, 0x1408);
        lemma_cleared_keeps(bytes, 0x2008, 0x1408, 0x1608);
    }
    lemma_stretch_join(cleared, 0, 0x1408, 0x1608);
    assert(c.title_tw.encoding() == cleared.subrange(0x1608, 0x1808)) by {
        lemma_app_titles_bytes_round_trip(c.title_tw, bytes, 0x1608);
        lemma_cleared_keeps(bytes, 0x2008, 0x1608, 0x1808);
    }
    lemma_stretch_join(cleared, 0, 0x1608, 0x1808);
    assert(laid_out(c.title_unused@, app_titles_enc()) == cleared.subrange(0x1808, 0x2008)) by {
        assert forall|i: int| 0 <= i < 4 implies #[trigger] app_titles_enc()(c.title_unused@[i])
            == bytes.subrange(0x1808 + 0x200 * i, 0x1808 + 0x200 * i + 0x200) by {
            lemma_app_titles_bytes_round_trip(c.title_unused@[i], bytes, 0x1808 + 0x200 * i);
        }
        lemma_laid_out_found(c.title_unused@, app_titles_enc(), 0x200, bytes, 0x1808);
        lemma_cleared_keeps(bytes, 0x2008, 0x1808, 0x2008);
    }
    lemma_stretch_join(cleared, 0, 0x1808, 0x2008);
    assert(c.settings.encoding() == cleared.subrange(0x2008, 0x2038)) by {
        lemma_app_settings_bytes_round_trip(c.settings, bytes, 0x2008);
    }
    lemma_stretch_join(cleared, 0, 0x2008, 0x2038);
    assert(u64_le_bytes(c.null) == cleared.subrange(0x2038, 0x2040)) by {
        lemma_u64_bytes_round_trip(bytes, 0x2038);
        lemma_cleared_keeps(bytes, 0x2008, 0x2038, 0x2040);
    }
    lemma_stretch_join(cleared, 0, 0x2038, 0x2040);
    assert(c.icon_small@ == cleared.subrange(0x2040, 0x24C0)) by {
        lemma_cleared_keeps(bytes, 0x2008, 0x2040, 0x24C0);
    }
    lemma_stretch_join(cleared, 0, 0x2040, 0x24C0);
    assert(c.icon_large@ == cleared.subrange(0x24C0, 0x36C0)) by {
        lemma_cleared_keeps(bytes, 0x2008, 0x24C0, 0x36C0);
    }
    lemma_stretch_join(cleared, 0, 0x24C0, 0x36C0);
    assert(cleared.subrange(0, 0x36C0) =~= cleared);
}

/// The legacy shape of an icon record: image data from end to end.
pub type NtrIcon = [u8; 0x36C0];

/// One record of the icon atlas, not yet read as either shape.
#[derive(Clone, Copy, Debug, PartialEq, Eq)]
pub struct Icon {
    raw: [u8; 0x36C0],
}

impl View for Icon {
    type V = Seq<u8>;

    /// The record's 0x36C0 bytes.
    closed spec fn view(&self) -> Seq<u8> {
        self.raw@
    }
}

/// The icon atlas as a whole: one record for each slot.
pub type CacheDDat = [Icon; 360];

/// The shape to read an icon record in. The bytes do not say; the caller
/// knows it from the kind of title the record belongs to.
#[derive(Clone, Copy, Debug, PartialEq, Eq, Structural)]
pub enum IconLayout {
    /// Titles, settings and two images.
    Ctr,
    /// Image data only.
    Ntr,
}

/// An icon record read in one of its two shapes.
#[derive(Clone, Copy, Debug, PartialEq, Eq)]
pub enum IconReading {
    Ctr(CtrIcon),
    Ntr(NtrIcon),
}

/// Why an icon record could not be taken out of an atlas.
#[derive(Clone, Copy, Debug, PartialEq, Eq, Structural)]
pub enum AtlasError {
    /// The atlas is not of its fixed size.
    Format(FormatMismatch),
    /// The atlas has no record at this place.
    Position(usize),
}

impl Icon {
    /// A record is always 0x36C0 bytes.
    pub proof fn lemma_len(&self)
        ensures
            self@.len() == ICON_SIZE,
    {
    }

    /// Takes a buffer of exactly the icon size as a record. A buffer of any
    /// other length is reported.
    pub fn from_bytes(bytes: &[u8]) -> (r: Result<Icon, FormatMismatch>)
        ensures
            match r {
                Ok(icon) => bytes@.len() == ICON_SIZE && icon@ == bytes@,
                Err(e) => spec_check_size(StructureKind::Icon, bytes@.len() as u64) == Err::<
                    (),
                    FormatMismatch,
                >(e),
            },
    {
        match check_size(StructureKind::Icon, bytes.len() as u64) {
            Err(e) => Err(e),
            Ok(_) => {
                let raw = read_array::<0x36C0>(bytes, 0);
                assert(bytes@.subrange(0, 0x36C0) =~= bytes@);
                Ok(Icon { raw })
            },
        }
    }

    /// The record read as a rich icon.
    pub fn ctr(&self) -> (r: CtrIcon)
        ensures
            r.decodes(self@),
    {
        CtrIcon::decode_fields(&self.raw)
    }

    /// The record read as a legacy icon: its bytes as they are.
    pub fn ntr(&self) -> (r: &NtrIcon)
        ensures
            r@ == self@,
    {
        &self.raw
    }

    /// The record read in the shape that the caller names.
    pub fn read_as(&self, layout: IconLayout) -> (r: IconReading)
        ensures
            match r {
                IconReading::Ctr(c) => layout == IconLayout::Ctr && c.decodes(self@),
                IconReading::Ntr(n) => layout == IconLayout::Ntr && n@ == self@,
            },
    {
        match layout {
            IconLayout::Ctr => IconReading::Ctr(self.ctr()),
            IconLayout::Ntr => IconReading::Ntr(*self.ntr()),
        }
    }
}

/// The byte offset of the record at place `pos` of the atlas.
pub open spec fn spec_icon_offset(pos: int) -> int {
    pos * 0x36C0
}

/// The byte offset at which the record of place `pos` starts in the atlas,
/// for the places that the atlas has.
pub fn icon_offset(pos: usize) -> (r: Option<u64>)
    ensures
        pos < SLOT_COUNT ==> r == Some(spec_icon_offset(pos as int) as u64),
        pos >= SLOT_COUNT ==> r is None,
        r matches Some(off) ==> off + ICON_SIZE <= CACHE_D_DAT_SIZE,
{
    if pos < SLOT_COUNT {
        Some((pos * ICON_SIZE) as u64)
    } else {
        None
    }
}

/// Takes the record at a place that the atlas has out of an atlas held in
/// memory. An atlas that is not of its fixed size is reported and not read.
pub(crate) fn icon_at(atlas: &[u8], pos: usize) -> (r: Result<Icon, FormatMismatch>)
    requires
        pos < SLOT_COUNT,
    ensures
        match r {
            Ok(icon) => {
                &&& atlas@.len() == CACHE_D_DAT_SIZE
                &&& icon@ == atlas@.subrange(
                    spec_icon_offset(pos as int),
                    spec_icon_offset(pos as int) + ICON_SIZE,
                )
            },
            Err(e) => spec_check_size(StructureKind::CacheDDat, atlas@.len() as u64) == Err::<
                (),
                FormatMismatch,
            >(e),
        },
{
    match check_size(StructureKind::CacheDDat, atlas.len() as u64) {
        Err(e) => Err(e),
        Ok(_) => Ok(Icon { raw: read_array::<0x36C0>(atlas, pos * ICON_SIZE) }),
    }
}

/// Takes the record at place `pos` out of an atlas held in memory: the
/// 0x36C0 bytes from `pos * 0x36C0` on. An atlas that is not of its fixed
/// size is reported and not read; so is a place that the atlas does not
/// have.
pub fn get_cache_d_icon(atlas: &[u8], pos: usize) -> (r: Result<Icon, AtlasError>)
    ensures
        match r {
            Ok(icon) => {
                &&& atlas@.len() == CACHE_D_DAT_SIZE
                &&& pos < SLOT_COUNT
                &&& icon@ == atlas@.subrange(
                    spec_icon_offset(pos as int),
                    spec_icon_offset(pos as int) + ICON_SIZE,
                )
            },
            Err(AtlasError::Format(e)) => spec_check_size(
                StructureKind::CacheDDat,
                atlas@.len() as u64,
            ) == Err::<(), FormatMismatch>(e),
            Err(AtlasError::Position(p)) => {
                &&& atlas@.len() == CACHE_D_DAT_SIZE
                &&& pos >= SLOT_COUNT
                &&& p == pos
            },
        },
{
    match check_size(StructureKind::CacheDDat, atlas.len() as u64) {
        Err(e) => Err(AtlasError::Format(e)),
        Ok(_) => {
            if pos < SLOT_COUNT {
                Ok(Icon { raw: read_array::<0x36C0>(atlas, pos * ICON_SIZE) })
            } else {
                Err(AtlasError::Position(pos))
            }
        },
    }
}

/// A block of titles is 0x200 bytes.
pub proof fn lemma_app_titles_len(t: AppTitles)
    ensures
        t.encoding().len() == APP_TITLES_SIZE,
{
    assert(t.short@.len() == 0x80 && t.long@.len() == 0x100 && t.publisher@.len() == 0x80);
}

/// Where a buffer holds the bytes of a block of titles, the block is read
/// from it.
pub proof fn lemma_app_titles_read_back(t: AppTitles, bytes: Seq<u8>, at: int)
    requires
        0 <= at,
        at + APP_TITLES_SIZE <= bytes.len(),
        bytes.subrange(at, at + 0x200) == t.encoding(),
    ensures
        t.decodes(bytes, at),
{
    let enc = t.encoding();
    lemma_app_titles_len(t);
    assert(enc.subrange(0, 0x80) =~= t.short@);
    assert(enc.subrange(0x80, 0x180) =~= t.long@);
    assert(enc.subrange(0x180, 0x200) =~= t.publisher@);
    lemma_stretch_of_stretch(bytes, at, 0x200, 0, 0x80);
    lemma_stretch_of_stretch(bytes, at, 0x200, 0x80, 0x180);
    lemma_stretch_of_stretch(bytes, at, 0x200, 0x180, 0x200);
}

/// The ratings are sixteen bytes.
pub proof fn lemma_game_ratings_len(g: GameRatings)
    ensures
        g.encoding().len() == GAME_RATINGS_SIZE,
{
    assert(g.null2@.len() == 5);
}

/// Where a buffer holds the bytes of ratings, the ratings are read from it.
pub proof fn lemma_game_ratings_read_back(g: GameRatings, bytes: Seq<u8>, at: int)
    requires
        0 <= at,
        at + GAME_RATINGS_SIZE <= bytes.len(),
        bytes.subrange(at, at + 16) == g.encoding(),
    ensures
        g.decodes(bytes, at),
{
    let enc = g.encoding();
    let part = bytes.subrange(at, at + 16);
    lemma_game_ratings_len(g);
    assert forall|k: int| 0 <= k < 16 implies bytes[at + k] == #[trigger] enc[k] by {
        assert(part[k] == bytes[at + k]);
    }
    assert(enc[0] == g.cero && enc[1] == g.esrb && enc[2] == g.null0 && enc[3] == g.usk);
    assert(enc[4] == g.pegi && enc[5] == g.null1 && enc[6] == g.pegi_prt);
    assert(enc[7] == g.pegi_bffc && enc[8] == g.cob && enc[9] == g.grb && enc[10] == g.cgsrr);
    assert(enc.subrange(11, 16) =~= g.null2@);
    lemma_stretch_of_stretch(bytes, at, 16, 11, 16);
}

/// The settings are 0x30 bytes.
pub proof fn lemma_app_settings_len(s: AppSettings)
    ensures
        s.encoding().len() == APP_SETTINGS_SIZE,
{
    lemma_app_settings_fields(s);
}

/// The fields of encoded settings, each at its place.
proof fn lemma_app_settings_fields(s: AppSettings)
    ensures
        s.encoding().len() == 0x30,
        s.encoding().subrange(0, 0x10) == s.ratings.encoding(),
        s.encoding().subrange(0x10, 0x14) == u32_le_bytes(s.regions),
        s.encoding().subrange(0x14, 0x18) == u32_le_bytes(s.match_maker_id),
        s.encoding().subrange(0x18, 0x20) == u64_le_bytes(s.match_maker_bit_id),
        s.encoding().subrange(0x20, 0x24) == u32_le_bytes(s.flags),
        s.encoding()[0x24] == s.eula_minor,
        s.encoding()[0x25] == s.eula_major,
        s.encoding().subrange(0x28, 0x2C) == u32_le_bytes(s.optimal_animation_default_frame),
        s.encoding().subrange(0x2C, 0x30) == u32_le_bytes(s.streetpass_id),
{
    let f1 = s.ratings.encoding();
    let f2 = u32_le_bytes(s.regions);
    let f3 = u32_le_bytes(s.match_maker_id);
    let f4 = u64_le_bytes(s.match_maker_bit_id);
    let f5 = u32_le_bytes(s.flags);
    let f6 = seq![s.eula_minor, s.eula_major, 0u8, 0u8];
    let f7 = u32_le_bytes(s.optimal_animation_default_frame);
    let f8 = u32_le_bytes(s.streetpass_id);
    assert(f1.len() == 16) by {
        lemma_game_ratings_len(s.ratings);
    }
    assert(f2.len() == 4 && f3.len() == 4 && f5.len() == 4 && f7.len() == 4 && f8.len() == 4) by {
        lemma_u32_value_round_trip(s.regions);
        lemma_u32_value_round_trip(s.match_maker_id);
        lemma_u32_value_round_trip(s.flags);
        lemma_u32_value_round_trip(s.optimal_animation_default_frame);
        lemma_u32_value_round_trip(s.streetpass_id);
    }
    assert(f4.len() == 8) by {
        lemma_u64_value_round_trip(s.match_maker_bit_id);
    }
    lemma_fields_of_eight(f1, f2, f3, f4, f5, f6, f7, f8);
}

/// The stretches of eight joined pieces.
proof fn lemma_fields_of_eight(
    f1: Seq<u8>,
    f2: Seq<u8>,
    f3: Seq<u8>,
    f4: Seq<u8>,
    f5: Seq<u8>,
    f6: Seq<u8>,
    f7: Seq<u8>,
    f8: Seq<u8>,
)
    requires
        f1.len() == 0x10,
        f2.len() == 4,
        f3.len() == 4,
        f4.len() == 8,
        f5.len() == 4,
        f6.len() == 4,
        f7.len() == 4,
        f8.len() == 4,
    ensures
        ({
            let all = f1 + f2 + f3 + f4 + f5 + f6 + f7 + f8;
            &&& all.len() == 0x30
            &&& all.subrange(0, 0x10) == f1
            &&& all.subrange(0x10, 0x14) == f2
            &&& all.subrange(0x14, 0x18) == f3
            &&& all.subrange(0x18, 0x20) == f4
            &&& all.subrange(0x20, 0x24) == f5
            &&& all[0x24] == f6[0]
            &&& all[0x25] == f6[1]
            &&& all.subrange(0x28, 0x2C) == f7
            &&& all.subrange(0x2C, 0x30) == f8
        }),
{
    let all = f1 + f2 + f3 + f4 + f5 + f6 + f7 + f8;
    assert(all.subrange(0, 0x10) =~= f1);
    assert(all.subrange(0x10, 0x14) =~= f2);
    assert(all.subrange(0x14, 0x18) =~= f3);
    assert(all.subrange(0x18, 0x20) =~= f4);
    assert(all.subrange(0x20, 0x24) =~= f5);
    assert(all.subrange(0x28, 0x2C) =~= f7);
    assert(all.subrange(0x2C, 0x30) =~= f8);
}

/// Where a buffer holds the bytes of settings, the settings are read from
/// it.
pub proof fn lemma_app_settings_read_back(s: AppSettings, bytes: Seq<u8>, at: int)
    requires
        0 <= at,
        at + APP_SETTINGS_SIZE <= bytes.len(),
        bytes.subrange(at, at + 0x30) == s.encoding(),
    ensures
        s.decodes(bytes, at),
{
    let part = bytes.subrange(at, at + 0x30);
    lemma_app_settings_fields(s);
    assert(s.ratings.decodes(bytes, at)) by {
        lemma_stretch_of_stretch(bytes, at, 0x30, 0, 0x10);
        lemma_game_ratings_read_back(s.ratings, bytes, at);
    }
    assert(s.regions == le_u32(bytes, at + 0x10)) by {
        lemma_stretch_of_stretch(bytes, at, 0x30, 0x10, 0x14);
        lemma_u32_read_back(bytes, at + 0x10, s.regions);
    }
    assert(s.match_maker_id == le_u32(bytes, at + 0x14)) by {
        lemma_stretch_of_stretch(bytes, at, 0x30, 0x14, 0x18);
        lemma_u32_read_back(bytes, at + 0x14, s.match_maker_id);
    }
    assert(s.match_maker_bit_id == le_u64(bytes, at + 0x18)) by {
        lemma_stretch_of_stretch(bytes, at, 0x30, 0x18, 0x20);
        lemma_u64_read_back(bytes, at + 0x18, s.match_maker_bit_id);
    }
    assert(s.flags == le_u32(bytes, at + 0x20)) by {
        lemma_stretch_of_stretch(bytes, at, 0x30, 0x20, 0x24);
        lemma_u32_read_back(bytes, at + 0x20, s.flags);
    }
    assert(s.eula_minor == bytes[at + 0x24] && s.eula_major == bytes[at + 0x25]) by {
        assert(part[0x24] == bytes[at + 0x24] && part[0x25] == bytes[at + 0x25]);
    }
    assert(s.optimal_animation_default_frame == le_u32(bytes, at + 0x28)) by {
        lemma_stretch_of_stretch(bytes, at, 0x30, 0x28, 0x2C);
        lemma_u32_read_back(bytes, at + 0x28, s.optimal_animation_default_frame);
    }
    assert(s.streetpass_id == le_u32(bytes, at + 0x2C)) by {
        lemma_stretch_of_stretch(bytes, at, 0x30, 0x2C, 0x30);
        lemma_u32_read_back(bytes, at + 0x2C, s.streetpass_id);
    }
}

/// Each of the unused blocks of titles is 0x200 bytes.
proof fn lemma_unused_titles_wide(c: CtrIcon)
    ensures
        all_wide(c.title_unused@, app_titles_enc(), 0x200),
{
    assert forall|i: int| 0 <= i < 4 implies (#[trigger] app_titles_enc()(
        c.title_unused@[i],
    )).len() == 0x200 by {
        lemma_app_titles_len(c.title_unused@[i]);
    }
}

/// The fields of an encoded rich icon, each at its place.
#[verifier::rlimit(30)]
proof fn lemma_ctr_icon_fields(c: CtrIcon)
    ensures
        c.encoding().len() == ICON_SIZE,
        c.encoding().subrange(0x0, 0x4) == c.magic@,
        c.encoding().subrange(0x4, 0x6) == u16_le_bytes(c.version),
        c.encoding().subrange(0x6, 0x8) == u16_le_bytes(c.reserved),
        c.encoding().subrange(0x8, 0x208) == c.title_jp.encoding(),
        c.encoding().subrange(0x208, 0x408) == c.title_en.encoding(),
        c.encoding().subrange(0x408, 0x608) == c.title_fr.encoding(),
        c.encoding().subrange(0x608, 0x808) == c.title_de.encoding(),
        c.encoding().subrange(0x808, 0xA08) == c.title_it.encoding(),
        c.encoding().subrange(0xA08, 0xC08) == c.title_es.encoding(),
        c.encoding().subrange(0xC08, 0xE08) == c.title_ch.encoding(),
        c.encoding().subrange(0xE08, 0x1008) == c.title_kr.encoding(),
        c.encoding().subrange(0x1008, 0x1208) == c.title_nl.encoding(),
        c.encoding().subrange(0x1208, 0x1408) == c.title_pt.encoding(),
        c.encoding().subrange(0x1408, 0x1608) == c.title_ru.encoding(),
        c.encoding().subrange(0x1608, 0x1808) == c.title_tw.encoding(),
        c.encoding().subrange(0x1808, 0x2008) == laid_out(c.title_unused@, app_titles_enc()),
        c.encoding().subrange(0x2008, 0x2038) == c.settings.encoding(),
        c.encoding().subrange(0x2038, 0x2040) == u64_le_bytes(c.null),
        c.encoding().subrange(0x2040, 0x24C0) == c.icon_small@,
        c.encoding().subrange(0x24C0, 0x36C0) == c.icon_large@,
{
    lemma_u16_value_round_trip(c.version);
    lemma_u16_value_round_trip(c.reserved);
    lemma_app_titles_len(c.title_jp);
    lemma_app_titles_len(c.title_en);
    lemma_app_titles_len(c.title_fr);
    lemma_app_titles_len(c.title_de);
    lemma_app_titles_len(c.title_it);
    lemma_app_titles_len(c.title_es);
    lemma_app_titles_len(c.title_ch);
    lemma_app_titles_len(c.title_kr);
    lemma_app_titles_len(c.title_nl);
    lemma_app_titles_len(c.title_pt);
    lemma_app_titles_len(c.title_ru);
    lemma_app_titles_len(c.title_tw);
    lemma_unused_titles_wide(c);
    lemma_laid_out_len(c.title_unused@, app_titles_enc(), 0x200);
    lemma_app_settings_len(c.settings);
    lemma_u64_value_round_trip(c.null);
    let head0 = c.magic@;
    let head1 = head0 + u16_le_bytes(c.version);
    lemma_append_piece(head0, u16_le_bytes(c.version));
    let head2 = head1 + u16_le_bytes(c.reserved);
    lemma_append_piece(head1, u16_le_bytes(c.reserved));
    let head3 = head2 + c.title_jp.encoding();
    lemma_append_piece(head2, c.title_jp.encoding());
    let head4 = head3 + c.title_en.encoding();
    lemma_append_piece(head3, c.title_en.encoding());
    let head5 = head4 + c.title_fr.encoding();
    lemma_append_piece(head4, c.title_fr.encoding());
    let head6 = head5 + c.title_de.encoding();
    lemma_append_piece(head5, c.title_de.encoding());
    let head7 = head6 + c.title_it.encoding();
    lemma_append_piece(head6, c.title_it.encoding());
    let head8 = head7 + c.title_es.encoding();
    lemma_append_piece(head7, c.title_es.encoding());
    let head9 = head8 + c.title_ch.encoding();
    lemma_append_piece(head8, c.title_ch.encoding());
    let head10 = head9 + c.title_kr.encoding();
    lemma_append_piece(head9, c.title_kr.encoding());
    let head11 = head10 + c.title_nl.encoding();
    lemma_append_piece(head10, c.title_nl.encoding());
    let head12 = head11 + c.title_pt.encoding();
    lemma_append_piece(head11, c.title_pt.encoding());
    let head13 = head12 + c.title_ru.encoding();
    lemma_append_piece(head12, c.title_ru.encoding());
    let head14 = head13 + c.title_tw.encoding();
    lemma_append_piece(head13, c.title_tw.encoding());
    let head15 = head14 + laid_out(c.title_unused@, app_titles_enc());
    lemma_append_piece(head14, laid_out(c.title_unused@, app_titles_enc()));
    let head16 = head15 + c.settings.encoding();
    lemma_append_piece(head15, c.settings.encoding());
    let head17 = head16 + u64_le_bytes(c.null);
    lemma_append_piece(head16, u64_le_bytes(c.null));
    let head18 = head17 + c.icon_small@;
    lemma_append_piece(head17, c.icon_small@);
    let head19 = head18 + c.icon_large@;
    lemma_append_piece(head18, c.icon_large@);
    assert(head0.subrange(0x0, 0x4) =~= head0);
}

/// Encoding a rich icon gives a record of the icon size, and decoding that
/// record gives the icon back.
pub proof fn lemma_ctr_icon_value_round_trip(c: CtrIcon)
    ensures
        c.encoding().len() == ICON_SIZE,
        c.decodes(c.encoding()),
{
    let enc = c.encoding();
    lemma_ctr_icon_fields(c);
    lemma_u16_read_back(enc, 0x4, c.version);
    lemma_u16_read_back(enc, 0x6, c.reserved);
    lemma_app_titles_read_back(c.title_jp, enc, 0x8);
    lemma_app_titles_read_back(c.title_en, enc, 0x208);
    lemma_app_titles_read_back(c.title_fr, enc, 0x408);
    lemma_app_titles_read_back(c.title_de, enc, 0x608);
    lemma_app_titles_read_back(c.title_it, enc, 0x808);
    lemma_app_titles_read_back(c.title_es, enc, 0xA08);
    lemma_app_titles_read_back(c.title_ch, enc, 0xC08);
    lemma_app_titles_read_back(c.title_kr, enc, 0xE08);
    lemma_app_titles_read_back(c.title_nl, enc, 0x1008);
    lemma_app_titles_read_back(c.title_pt, enc, 0x1208);
    lemma_app_titles_read_back(c.title_ru, enc, 0x1408);
    lemma_app_titles_read_back(c.title_tw, enc, 0x1608);
    lemma_app_settings_read_back(c.settings, enc, 0x2008);
    lemma_u64_read_back(enc, 0x2038, c.null);
    assert forall|i: int| 0 <= i < 4 implies (#[trigger] c.title_unused@[i]).decodes(
        enc,
        0x1808 + 0x200 * i,
    ) by {
        lemma_unused_titles_wide(c);
        lemma_laid_out_record(c.title_unused@, app_titles_enc(), 0x200, i);
        lemma_stretch_of_stretch(enc, 0x1808, 0x800, 0x200 * i, 0x200 * i + 0x200);
        lemma_app_titles_read_back(c.title_unused@[i], enc, 0x1808 + 0x200 * i);
    }
}

} // verus!
