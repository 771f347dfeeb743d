//! The listing that is shown on the console, a page at a time.
//!
//! Each frame the input is polled once. When a page is asked for and titles
//! are left, the next ten are shown; the exit key ends the run. A line of
//! the listing is the title identifier in sixteen hexadecimal digits,
//! ` - `, and the title's short English name.

use crate::home_menu::cache::{spec_position, CacheDat};
use crate::home_menu::icon::{icon_at, spec_icon_offset, Icon};
use crate::text::{decode_text, read_text, TextDecodeError};
use crate::validate::{spec_check_size, FormatMismatch, StructureKind, CACHE_D_DAT_SIZE, ICON_SIZE};
use vstd::prelude::*;
use vstd::slice::slice_subrange;
use vstd::string::StringExecFns;

verus! {

/// Number of titles on a page.
pub const PAGE_SIZE: usize = 10;

/// Offset, in an icon record, of the short English name.
pub const SHORT_NAME_OFFSET: usize = 0x208;

/// Byte length of a short name.
pub const SHORT_NAME_SIZE: usize = 0x80;

/// A page of the listing: the places `from..to`.
#[derive(Clone, Copy, Debug, PartialEq, Eq, Structural)]
pub struct Page {
    pub from: usize,
    pub to: usize,
}

/// What a frame asks the caller to do.
#[derive(Clone, Copy, Debug, PartialEq, Eq, Structural)]
pub struct FrameAction {
    /// The titles to show, if any.
    pub page: Option<Page>,
    /// Whether to leave the frame loop.
    pub exit: bool,
}

/// The listing and how far it has been shown.
pub struct Listing {
    titles: Vec<u64>,
    shown: usize,
}

impl Listing {
    /// The titles of the listing.
    pub closed spec fn titles(&self) -> Seq<u64> {
        self.titles@
    }

    /// How many titles have been shown.
    pub closed spec fn shown(&self) -> int {
        self.shown as int
    }

    /// No more titles have been shown than there are.
    #[verifier::type_invariant]
    spec fn shown_in_range(&self) -> bool {
        self.shown <= self.titles@.len()
    }

    /// A listing of which nothing has been shown yet.
    pub fn new(titles: Vec<u64>) -> (r: Listing)
        ensures
            r.titles() == titles@,
            r.shown() == 0,
    {
        Listing { titles, shown: 0 }
    }

    /// Number of titles in the listing.
    pub fn len(&self) -> (r: usize)
        ensures
            r == self.titles().len(),
    {
        self.titles.len()
    }

    /// Number of titles that have not been shown yet.
    pub fn remaining(&self) -> (r: usize)
        ensures
            r == self.titles().len() - self.shown(),
    {
        proof {
            use_type_invariant(self);
        }
        self.titles.len() - self.shown
    }

    /// The title at place `i` of the listing.
    pub fn title(&self, i: usize) -> (r: u64)
        requires
            i < self.titles().len(),
        ensures
            r == self.titles()[i as int],
    {
        self.titles[i]
    }

    /// The end of the page that starts at `from`: ten titles on, or the end
    /// of the listing where fewer are left.
    pub open spec fn page_end(from: int, len: int) -> int {
        if len - from > PAGE_SIZE {
            from + PAGE_SIZE
        } else {
            len
        }
    }

    /// One frame. The page key shows the next page while titles are left,
    /// and does nothing once all were shown; the exit key asks to leave.
    /// Both may come in one frame: the page is shown, then the loop is left.
    pub fn on_frame(&mut self, page_key: bool, exit_key: bool) -> (r: FrameAction)
        ensures
            final(self).titles() == old(self).titles(),
            r.exit == exit_key,
            page_key && old(self).shown() < old(self).titles().len() ==> {
                &&& r.page == Some(
                    Page {
                        from: old(self).shown() as usize,
                        to: Listing::page_end(
                            old(self).shown(),
                            old(self).titles().len() as int,
                        ) as usize,
                    },
                )
                &&& final(self).shown() == Listing::page_end(
                    old(self).shown(),
                    old(self).titles().len() as int,
                )
            },
            !(page_key && old(self).shown() < old(self).titles().len()) ==> {
                &&& r.page is None
                &&& final(self).shown() == old(self).shown()
            },
    {
        proof {
            use_type_invariant(&*self);
        }
        let len = self.titles.len();
        let mut page: Option<Page> = None;
        if page_key && self.shown < len {
            let from = self.shown;
            let to = if len - from > PAGE_SIZE {
                from + PAGE_SIZE
            } else {
                len
            };
            page = Some(Page { from, to });
            self.shown = to;
        }
        FrameAction { page, exit: exit_key }
    }
}

/// Page after page, the whole listing is shown: a page starts where the
/// last one ended, holds at least one title and at most ten, and ends
/// inside the listing.
pub proof fn lemma_pages_advance(from: int, len: int)
    requires
        0 <= from < len,
    ensures
        from < Listing::page_end(from, len) <= len,
        Listing::page_end(from, len) - from <= PAGE_SIZE,
{
}

/// The lower-case hexadecimal digit of a value below 16.
pub open spec fn hex_char(d: int) -> char {
    if d < 10 {
        (0x30 + d) as char
    } else {
        (0x61 + d - 10) as char
    }
}

/// `x` in `width` lower-case hexadecimal digits, most significant first,
/// with zeros in front; digits beyond the width are left off.
pub open spec fn hex_digits(x: nat, width: nat) -> Seq<char>
    decreases width,
{
    if width == 0 {
        Seq::empty()
    } else {
        hex_digits(x / 16, (width - 1) as nat).push(hex_char((x % 16) as int))
    }
}

/// What stands between the identifier and the name on a line.
pub open spec fn separator() -> Seq<char> {
    " - "@
}

/// What stands for a name that could not be decoded.
pub open spec fn name_placeholder() -> Seq<char> {
    "<unreadable name>"@
}

/// A line of the listing.
pub open spec fn spec_entry_line(id: u64, name: Option<Seq<char>>) -> Seq<char> {
    hex_digits(id as nat, 16) + separator() + (match name {
        Some(n) => n,
        None => name_placeholder(),
    })
}

/// The lower-case hexadecimal digit of a value below 16.
pub fn hex_digit_char(d: u8) -> (r: char)
    requires
        d < 16,
    ensures
        r == hex_char(d as int),
{
    if d == 0 {
        '0'
    } else if d == 1 {
        '1'
    } else if d == 2 {
        '2'
    } else if d == 3 {
        '3'
    } else if d == 4 {
        '4'
    } else if d == 5 {
        '5'
    } else if d == 6 {
        '6'
    } else if d == 7 {
        '7'
    } else if d == 8 {
        '8'
    } else if d == 9 {
        '9'
    } else if d == 10 {
        'a'
    } else if d == 11 {
        'b'
    } else if d == 12 {
        'c'
    } else if d == 13 {
        'd'
    } else if d == 14 {
        'e'
    } else {
        'f'
    }
}

/// A title identifier as it is shown: sixteen lower-case hexadecimal
/// digits.
pub fn format_title_id(id: u64) -> (r: String)
    ensures
        r@ == hex_digits(id as nat, 16),
{
    let mut digits = ['0';16];
    let mut rest = id;
    let mut done: usize = 0;
    assert(digits@.subrange(16, 16) =~= Seq::<char>::empty());
    assert(hex_digits(rest as nat, 16) + Seq::<char>::empty() =~= hex_digits(rest as nat, 16));
    while done < 16
        invariant
            done <= 16,
            hex_digits(id as nat, 16) == hex_digits(rest as nat, (16 - done) as nat)
                + digits@.subrange(16 - done, 16),
        decreases 16 - done,
    {
        let c = hex_digit_char((rest % 16) as u8);
        let ghost before = digits@;
        digits[15 - done] = c;
        proof {
            let shorter = hex_digits((rest / 16) as nat, (15 - done) as nat);
            assert(hex_digits(rest as nat, (16 - done) as nat) == shorter.push(c));
            assert(digits@.subrange(15 - done, 16) =~= seq![c] + before.subrange(16 - done, 16));
            assert(shorter.push(c) + before.subrange(16 - done, 16) =~= shorter + (seq![c]
                + before.subrange(16 - done, 16)));
        }
        rest = rest / 16;
        done += 1;
    }
    assert(digits@.subrange(0, 16) =~= digits@);
    assert(Seq::<char>::empty() + digits@ =~= digits@);
    let mut out = String::new();
    let mut i: usize = 0;
    while i < 16
        invariant
            i <= 16,
            out@ == digits@.take(i as int),
        decreases 16 - i,
    {
        out.push(digits[i]);
        i += 1;
        assert(out@ =~= digits@.take(i as int));
    }
    assert(digits@.take(16) =~= digits@);
    out
}

/// A line of the listing: the identifier, ` - `, and the name; where the
/// name could not be decoded, a placeholder stands for it and the line is
/// shown all the same.
pub fn entry_line(id: u64, name: &Result<String, TextDecodeError>) -> (r: String)
    ensures
        r@ == spec_entry_line(
            id,
            match *name {
                Ok(n) => Some(n@),
                Err(_) => None,
            },
        ),
{
    let mut line = format_title_id(id);
    line.append(" - ");
    match name {
        Ok(n) => {
            line.append(n.as_str());
        },
        Err(_) => {
            line.append("<unreadable name>");
        },
    }
    line
}

/// The short English name that a rich icon record holds, as text.
pub open spec fn spec_short_name(icon: Seq<u8>) -> Option<Seq<char>> {
    decode_text(icon.subrange(0x208, 0x288))
}

/// The name under which a title is listed: the short English name of its
/// icon record, read as a rich icon.
pub fn entry_name(icon: &Icon) -> (r: Result<String, TextDecodeError>)
    ensures
        match r {
            Ok(n) => spec_short_name(icon@) == Some(n@),
            Err(_) => spec_short_name(icon@) is None,
        },
{
    proof {
        icon.lemma_len();
    }
    let record = icon.ntr();
    read_text(
        slice_subrange(
            record.as_slice(),
            SHORT_NAME_OFFSET,
            SHORT_NAME_OFFSET + SHORT_NAME_SIZE,
        ),
    )
}

/// The record of the atlas in which the title's name is looked up: the one
/// at the title's place in the cache index.
pub open spec fn spec_entry_record(id: u64, cache: CacheDat, atlas: Seq<u8>) -> Seq<u8> {
    atlas.subrange(
        spec_icon_offset(spec_position(cache.entries@, id)),
        spec_icon_offset(spec_position(cache.entries@, id)) + ICON_SIZE,
    )
}

/// The line under which a title is listed, from the cache index and an
/// atlas held in memory: the title's place is looked up in the index, the
/// record at that place is taken out of the atlas, and its short English
/// name is put behind the identifier. An atlas of the wrong size is
/// reported; a name that cannot be decoded is not.
pub fn list_entry(id: u64, cache: &CacheDat, atlas: &[u8]) -> (r: Result<String, FormatMismatch>)
    ensures
        match r {
            Ok(line) => atlas@.len() == CACHE_D_DAT_SIZE && line@ == spec_entry_line(
                id,
                spec_short_name(spec_entry_record(id, *cache, atlas@)),
            ),
            Err(e) => spec_check_size(StructureKind::CacheDDat, atlas@.len() as u64) == Err::<
                (),
                FormatMismatch,
            >(e),
        },
{
    let pos = cache.position(id);
    match icon_at(atlas, pos) {
        Ok(icon) => {
            let name = entry_name(&icon);
            Ok(entry_line(id, &name))
        },
        Err(e) => Err(e),
    }
}

} // verus!
