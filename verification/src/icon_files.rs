//! File names of the icons that wait to be installed.
//!
//! An icon file is named by the low half of its title identifier, written
//! in hexadecimal digits of either case, followed by `.icn`: one or more
//! digits, the dot, the extension in lower case, and nothing else. A name
//! whose digits stand for more than 32 bits names no icon.

use vstd::prelude::*;
use vstd::slice::slice_subrange;

verus! {

/// The extension of icon files, with its dot: `.icn`.
pub open spec fn icon_extension() -> Seq<u8> {
    seq![0x2Eu8, 0x69u8, 0x63u8, 0x6Eu8]
}

/// Whether a byte is a hexadecimal digit.
pub open spec fn is_hex_digit(b: u8) -> bool {
    (0x30 <= b <= 0x39) || (0x41 <= b <= 0x46) || (0x61 <= b <= 0x66)
}

/// The value of a hexadecimal digit.
pub open spec fn hex_digit_value(b: u8) -> nat {
    if 0x30 <= b <= 0x39 {
        (b - 0x30) as nat
    } else if 0x41 <= b <= 0x46 {
        (b - 0x41 + 10) as nat
    } else {
        (b - 0x61 + 10) as nat
    }
}

/// Whether every byte is a hexadecimal digit.
pub open spec fn all_hex_digits(digits: Seq<u8>) -> bool {
    forall|i: int| 0 <= i < digits.len() ==> is_hex_digit(#[trigger] digits[i])
}

/// The number that hexadecimal digits stand for, most significant first.
pub open spec fn hex_value(digits: Seq<u8>) -> nat
    decreases digits.len(),
{
    if digits.len() == 0 {
        0
    } else {
        16 * hex_value(digits.drop_last()) + hex_digit_value(digits.last())
    }
}

/// The digits of an icon file's name: what stands before `.icn`.
pub open spec fn icon_file_stem(name: Seq<u8>) -> Seq<u8> {
    name.take(name.len() - 4)
}

/// Whether `name` has the shape of an icon file's name.
pub open spec fn is_icon_file_name(name: Seq<u8>) -> bool {
    &&& name.len() >= 5
    &&& name.skip(name.len() - 4) == icon_extension()
    &&& all_hex_digits(icon_file_stem(name))
}

/// The icon identifier that a file name stands for, if it is an icon file's
/// name and its digits fit in 32 bits.
pub open spec fn icon_file_id(name: Seq<u8>) -> Option<u32> {
    if is_icon_file_name(name) && hex_value(icon_file_stem(name)) <= u32::MAX {
        Some(hex_value(icon_file_stem(name)) as u32)
    } else {
        None
    }
}

/// The icon identifiers of the icon files among `names`, in the order of
/// the names.
pub open spec fn icon_ids(names: Seq<Seq<u8>>) -> Seq<u32>
    decreases names.len(),
{
    if names.len() == 0 {
        Seq::empty()
    } else {
        match icon_file_id(names.last()) {
            Some(id) => icon_ids(names.drop_last()).push(id),
            None => icon_ids(names.drop_last()),
        }
    }
}

/// More digits never stand for less.
pub proof fn lemma_hex_value_grows(digits: Seq<u8>, n: int)
    requires
        0 <= n <= digits.len(),
    ensures
        hex_value(digits.take(n)) <= hex_value(digits),
    decreases digits.len() - n,
{
    if n == digits.len() {
        assert(digits.take(n) =~= digits);
    } else {
        lemma_hex_value_grows(digits, n + 1);
        assert(digits.take(n + 1).drop_last() =~= digits.take(n));
    }
}

/// The value of a hexadecimal digit, if the byte is one.
pub fn hex_digit(b: u8) -> (r: Option<u8>)
    ensures
        match r {
            Some(v) => is_hex_digit(b) && v == hex_digit_value(b),
            None => !is_hex_digit(b),
        },
{
    if 0x30 <= b && b <= 0x39 {
        Some(b - 0x30)
    } else if 0x41 <= b && b <= 0x46 {
        Some(b - 0x41 + 10)
    } else if 0x61 <= b && b <= 0x66 {
        Some(b - 0x61 + 10)
    } else {
        None
    }
}

/// Reads hexadecimal digits as a 32-bit number: nothing where a byte is no
/// digit or the number does not fit.
pub fn parse_hex_u32(digits: &[u8]) -> (r: Option<u32>)
    ensures
        match r {
            Some(v) => all_hex_digits(digits@) && v == hex_value(digits@),
            None => !all_hex_digits(digits@) || hex_value(digits@) > u32::MAX,
        },
{
    let mut acc: u64 = 0;
    let mut i: usize = 0;
    assert(digits@.take(0) =~= Seq::<u8>::empty());
    while i < digits.len()
        invariant
            i <= digits@.len(),
            all_hex_digits(digits@.take(i as int)),
            acc == hex_value(digits@.take(i as int)),
            acc <= u32::MAX,
        decreases digits@.len() - i,
    {
        let ghost next = digits@.take(i + 1);
        assert(next.drop_last() =~= digits@.take(i as int));
        assert(next.last() == digits@[i as int]);
        match hex_digit(digits[i]) {
            None => {
                return None;
            },
            Some(v) => {
                acc = 16 * acc + v as u64;
                assert forall|j: int| 0 <= j < next.len() implies is_hex_digit(
                    #[trigger] next[j],
                ) by {
                    if j < i {
                        assert(digits@.take(i as int)[j] == next[j]);
                    }
                }
                if acc > u32::MAX as u64 {
                    proof {
                        lemma_hex_value_grows(digits@, i + 1);
                    }
                    return None;
                }
            },
        }
        i += 1;
    }
    assert(digits@.take(i as int) =~= digits@);
    Some(acc as u32)
}

/// The icon identifier that a file name stands for: the name's digits as a
/// number, for a name of one or more hexadecimal digits and `.icn` whose
/// number fits in 32 bits, and nothing for any other name.
pub fn parse_icon_file_name(name: &[u8]) -> (r: Option<u32>)
    ensures
        r == icon_file_id(name@),
{
    let n = name.len();
    if n < 5 {
        return None;
    }
    if name[n - 4] != 0x2E || name[n - 3] != 0x69 || name[n - 2] != 0x63 || name[n - 1] != 0x6E {
        assert(name@.skip(n - 4)[0] == name@[n - 4]);
        assert(name@.skip(n - 4)[1] == name@[n - 3]);
        assert(name@.skip(n - 4)[2] == name@[n - 2]);
        assert(name@.skip(n - 4)[3] == name@[n - 1]);
        return None;
    }
    assert(name@.skip(n - 4) =~= icon_extension());
    assert(name@.subrange(0, n - 4) =~= icon_file_stem(name@));
    parse_hex_u32(slice_subrange(name, 0, n - 4))
}

/// The icon identifiers of the icon files among `names`, in the order of
/// the names; names that are no icon file's are passed over.
pub fn collect_icon_ids(names: &Vec<Vec<u8>>) -> (r: Vec<u32>)
    ensures
        r@ == icon_ids(names@.map_values(|n: Vec<u8>| n@)),
{
    let ghost all = names@.map_values(|n: Vec<u8>| n@);
    let mut out: Vec<u32> = Vec::new();
    let mut i: usize = 0;
    assert(all.take(0) =~= Seq::<Seq<u8>>::empty());
    while i < names.len()
        invariant
            i <= names@.len(),
            all == names@.map_values(|n: Vec<u8>| n@),
            out@ == icon_ids(all.take(i as int)),
        decreases names@.len() - i,
    {
        proof {
            let next = all.take(i + 1);
            assert(next.drop_last() =~= all.take(i as int));
            assert(next.last() == names@[i as int]@);
        }
        match parse_icon_file_name(names[i].as_slice()) {
            Some(id) => {
                out.push(id);
            },
            None => {},
        }
        i += 1;
    }
    assert(all.take(i as int) =~= all);
    out
}

} // verus!
