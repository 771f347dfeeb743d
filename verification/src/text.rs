//! Display names: fixed-width blocks of UTF-16LE code units, padded with NUL.

use crate::endian::{le_u16, read_u16};
use vstd::prelude::*;
use vstd::slice::slice_subrange;

verus! {

/// `std`'s `char::from_u32`: a `char` for every Unicode scalar value, that
/// is for every number up to 0x10FFFF outside the surrogate range
/// 0xD800..=0xDFFF, and nothing for any other number.
pub assume_specification[ char::from_u32 ](i: u32) -> (r: Option<char>)
    ensures
        is_scalar_value(i as int) ==> r == Some(i as char),
        !is_scalar_value(i as int) ==> r is None,
;

/// `std`'s `String::push`: the string with the character appended.
pub assume_specification[ String::push ](s: &mut String, ch: char)
    ensures
        final(s)@ == old(s)@.push(ch),
;

/// A number that is a Unicode scalar value.
pub open spec fn is_scalar_value(v: int) -> bool {
    0 <= v < 0xD800 || 0xE000 <= v <= 0x10_FFFF
}

/// A code unit that opens a surrogate pair.
pub open spec fn is_lead(u: u16) -> bool {
    0xD800 <= u <= 0xDBFF
}

/// A code unit that closes a surrogate pair.
pub open spec fn is_trail(u: u16) -> bool {
    0xDC00 <= u <= 0xDFFF
}

/// The scalar value that a surrogate pair stands for.
pub open spec fn pair_value(lead: u16, trail: u16) -> int {
    0x1_0000 + (lead - 0xD800) * 0x400 + (trail - 0xDC00)
}

/// `rest` with `c` in front, where there is a `rest`.
pub open spec fn prepend(c: char, rest: Option<Seq<char>>) -> Option<Seq<char>> {
    match rest {
        Some(r) => Some(seq![c] + r),
        None => None,
    }
}

/// The text that a sequence of UTF-16 code units stands for: a unit outside
/// the surrogate range is its own character, a lead followed by a trail is
/// the character of the pair, and a surrogate in any other place leaves the
/// sequence without a text.
pub open spec fn utf16_chars(units: Seq<u16>) -> Option<Seq<char>>
    decreases units.len(),
{
    if units.len() == 0 {
        Some(Seq::empty())
    } else if !is_lead(units[0]) && !is_trail(units[0]) {
        prepend(units[0] as char, utf16_chars(units.skip(1)))
    } else if is_lead(units[0]) && units.len() >= 2 && is_trail(units[1]) {
        prepend(pair_value(units[0], units[1]) as char, utf16_chars(units.skip(2)))
    } else {
        None
    }
}

/// The code units that a block of bytes holds, low byte first. A last odd
/// byte belongs to no unit.
pub open spec fn le_units(bytes: Seq<u8>) -> Seq<u16> {
    Seq::new((bytes.len() / 2) as nat, |i: int| le_u16(bytes, 2 * i))
}

/// `units` without the NUL units at its end.
pub open spec fn trim_nuls(units: Seq<u16>) -> Seq<u16>
    decreases units.len(),
{
    if units.len() > 0 && units.last() == 0 {
        trim_nuls(units.drop_last())
    } else {
        units
    }
}

/// The text of a NUL-padded block of UTF-16LE bytes.
pub open spec fn decode_text(bytes: Seq<u8>) -> Option<Seq<char>> {
    utf16_chars(trim_nuls(le_units(bytes)))
}

/// The code units are not well-formed UTF-16: a surrogate stands alone.
#[derive(Clone, Copy, Debug, PartialEq, Eq, Structural)]
pub struct TextDecodeError {
    /// Place of the first code unit that cannot be decoded.
    pub unit: usize,
}

/// `text` followed by what the units from `from` on stand for.
pub open spec fn continued(text: Seq<char>, units: Seq<u16>, from: int) -> Option<Seq<char>> {
    match utf16_chars(units.skip(from)) {
        Some(r) => Some(text + r),
        None => None,
    }
}

/// The place of the first code unit at which decoding stops, for units
/// that have no text.
pub open spec fn first_bad_unit(units: Seq<u16>) -> int
    decreases units.len(),
{
    if units.len() == 0 {
        0
    } else if !is_lead(units[0]) && !is_trail(units[0]) {
        1 + first_bad_unit(units.skip(1))
    } else if is_lead(units[0]) && units.len() >= 2 && is_trail(units[1]) {
        2 + first_bad_unit(units.skip(2))
    } else {
        0
    }
}

/// Decodes UTF-16 code units into a string; a surrogate that stands alone
/// is an error that names its place.
pub fn decode_utf16(units: &[u16]) -> (r: Result<String, TextDecodeError>)
    ensures
        match r {
            Ok(s) => utf16_chars(units@) == Some(s@),
            Err(e) => utf16_chars(units@) is None && e.unit == first_bad_unit(units@),
        },
{
    let n = units.len();
    let mut out = String::new();
    let mut i: usize = 0;
    assert(units@.skip(0) =~= units@);
    while i < n
        invariant
            i <= n,
            n == units@.len(),
            utf16_chars(units@) == continued(out@, units@, i as int),
            first_bad_unit(units@) == i + first_bad_unit(units@.skip(i as int)),
        decreases n - i,
    {
        let ghost rest = units@.skip(i as int);
        let u = units[i];
        assert(rest[0] == u);
        if u < 0xD800 || u > 0xDFFF {
            // A unit outside the surrogate range is a scalar value.
            let c = match char::from_u32(u as u32) {
                Some(c) => c,
                None => {
                    return Err(TextDecodeError { unit: i });
                },
            };
            proof {
                assert(rest.skip(1) =~= units@.skip(i + 1));
                let tail = utf16_chars(units@.skip(i + 1));
                if tail is Some {
                    assert(out@ + (seq![c] + tail->Some_0) =~= out@.push(c) + tail->Some_0);
                }
            }
            out.push(c);
            i += 1;
        } else if u <= 0xDBFF && i + 1 < n && 0xDC00 <= units[i + 1] && units[i + 1] <= 0xDFFF {
            let t = units[i + 1];
            assert(rest[1] == t);
            let v: u32 = 0x1_0000 + (u as u32 - 0xD800) * 0x400 + (t as u32 - 0xDC00);
            // A pair stands for a scalar value from 0x10000 to 0x10FFFF.
            let c = match char::from_u32(v) {
                Some(c) => c,
                None => {
                    return Err(TextDecodeError { unit: i });
                },
            };
            proof {
                assert(rest.skip(2) =~= units@.skip(i + 2));
                let tail = utf16_chars(units@.skip(i + 2));
                if tail is Some {
                    assert(out@ + (seq![c] + tail->Some_0) =~= out@.push(c) + tail->Some_0);
                }
            }
            out.push(c);
            i += 2;
        } else {
            return Err(TextDecodeError { unit: i });
        }
    }
    assert(units@.skip(i as int) =~= Seq::<u16>::empty());
    assert(out@ + Seq::<char>::empty() =~= out@);
    Ok(out)
}

/// Reads the code units of a block of bytes.
pub fn read_units(bytes: &[u8]) -> (r: Vec<u16>)
    ensures
        r@ == le_units(bytes@),
{
    let len = bytes.len();
    let n = len / 2;
    let mut r: Vec<u16> = Vec::new();
    let mut i: usize = 0;
    while i < n
        invariant
            i <= n,
            len == bytes@.len(),
            n == len / 2,
            r@.len() == i,
            forall|j: int| 0 <= j < i ==> r@[j] == le_u16(bytes@, 2 * j),
        decreases n - i,
    {
        r.push(read_u16(bytes, 2 * i));
        i += 1;
    }
    assert(r@ =~= le_units(bytes@));
    r
}

/// The length of `units` without the NUL units at its end.
pub fn trimmed_len(units: &[u16]) -> (r: usize)
    ensures
        r <= units@.len(),
        trim_nuls(units@) == units@.take(r as int),
{
    let mut end = units.len();
    assert(units@.take(end as int) =~= units@);
    while end > 0 && units[end - 1] == 0
        invariant
            end <= units@.len(),
            trim_nuls(units@) == trim_nuls(units@.take(end as int)),
        decreases end,
    {
        assert(units@.take(end as int).drop_last() =~= units@.take(end - 1));
        end -= 1;
    }
    end
}

/// Decodes a NUL-padded block of UTF-16LE bytes into its text. The NUL
/// units at the end are padding and no part of the text; a surrogate that
/// stands alone is an error, which concerns this block only.
pub fn read_text(bytes: &[u8]) -> (r: Result<String, TextDecodeError>)
    ensures
        match r {
            Ok(s) => decode_text(bytes@) == Some(s@),
            Err(e) => decode_text(bytes@) is None && e.unit == first_bad_unit(
                trim_nuls(le_units(bytes@)),
            ),
        },
{
    let units = read_units(bytes);
    let end = trimmed_len(units.as_slice());
    decode_utf16(slice_subrange(units.as_slice(), 0, end))
}

/// Text held as UTF-16LE bytes.
pub trait Utf16 {
    /// The bytes that hold the text.
    spec fn text_bytes(&self) -> Seq<u8>;

    /// The text, without its NUL padding.
    fn read_utf16(&self) -> (r: Result<String, TextDecodeError>)
        ensures
            match r {
                Ok(s) => decode_text(self.text_bytes()) == Some(s@),
                Err(e) => decode_text(self.text_bytes()) is None && e.unit == first_bad_unit(
                    trim_nuls(le_units(self.text_bytes())),
                ),
            },
    ;
}

impl<const N: usize> Utf16 for [u8; N] {
    open spec fn text_bytes(&self) -> Seq<u8> {
        self@
    }

    fn read_utf16(&self) -> (r: Result<String, TextDecodeError>) {
        read_text(self.as_slice())
    }
}

/// Trimming takes the NUL units at the end away and nothing else: what is
/// left is the front of the units, all that was cut is NUL, and what is left
/// does not end in NUL.
pub proof fn lemma_trim_nuls_cuts_padding(units: Seq<u16>)
    ensures
        trim_nuls(units).len() <= units.len(),
        trim_nuls(units) == units.take(trim_nuls(units).len() as int),
        forall|i: int| trim_nuls(units).len() <= i < units.len() ==> units[i] == 0,
        trim_nuls(units).len() > 0 ==> trim_nuls(units).last() != 0,
    decreases units.len(),
{
    if units.len() > 0 && units.last() == 0 {
        let rest = units.drop_last();
        lemma_trim_nuls_cuts_padding(rest);
        assert(rest.take(trim_nuls(rest).len() as int) =~= units.take(
            trim_nuls(rest).len() as int,
        ));
        assert forall|i: int| trim_nuls(units).len() <= i < units.len() implies units[i]
            == 0 by {
            if i < rest.len() {
                assert(rest[i] == units[i]);
            }
        }
    } else {
        assert(units.take(units.len() as int) =~= units);
    }
}

/// More padding gives the same text.
pub proof fn lemma_padding_is_no_text(bytes: Seq<u8>)
    requires
        bytes.len() % 2 == 0,
    ensures
        decode_text(bytes + seq![0u8, 0u8]) == decode_text(bytes),
{
    let padded = bytes + seq![0u8, 0u8];
    assert(le_units(padded).drop_last() =~= le_units(bytes));
    assert(le_units(padded).last() == 0);
}

/// Units outside the surrogate range are the text, one character each.
pub proof fn lemma_plain_units_are_text(units: Seq<u16>)
    requires
        forall|i: int| 0 <= i < units.len() ==> !is_lead(units[i]) && !is_trail(units[i]),
    ensures
        utf16_chars(units) == Some(Seq::new(units.len(), |i: int| units[i] as char)),
    decreases units.len(),
{
    if units.len() > 0 {
        let rest = units.skip(1);
        lemma_plain_units_are_text(rest);
        assert(seq![units[0] as char] + Seq::new(rest.len(), |i: int| rest[i] as char)
            =~= Seq::new(units.len(), |i: int| units[i] as char));
    } else {
        assert(Seq::<char>::empty() =~= Seq::new(units.len(), |i: int| units[i] as char));
    }
}

/// A surrogate that stands alone leaves the units without a text: a trail
/// with no lead before it, or a lead with no trail behind it.
pub proof fn lemma_lone_surrogate_is_no_text(units: Seq<u16>, at: int)
    requires
        0 <= at < units.len(),
        forall|i: int| 0 <= i < at ==> !is_lead(units[i]) && !is_trail(units[i]),
        is_trail(units[at]) || (is_lead(units[at]) && (at + 1 == units.len() || !is_trail(
            units[at + 1],
        ))),
    ensures
        utf16_chars(units) is None,
        first_bad_unit(units) == at,
    decreases at,
{
    if at > 0 {
        lemma_lone_surrogate_is_no_text(units.skip(1), at - 1);
    }
}

} // verus!
