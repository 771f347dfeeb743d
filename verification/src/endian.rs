//! Little-endian integers inside a byte sequence.
//!
//! Every fixed-layout record of the home-menu files stores its integers
//! least-significant byte first. The spec functions here say what value the
//! bytes at an offset stand for; the executable readers and writers are
//! proved against them.

use crate::layout::{
    all_wide, laid_out, lemma_laid_out_found, lemma_laid_out_len, lemma_laid_out_push,
    lemma_laid_out_record,
};
use vstd::prelude::*;

verus! {

/// The unsigned 16-bit value stored at `at`.
pub open spec fn le_u16(bytes: Seq<u8>, at: int) -> u16 {
    (bytes[at] + 0x100 * bytes[at + 1]) as u16
}

/// The unsigned 32-bit value stored at `at`.
pub open spec fn le_u32(bytes: Seq<u8>, at: int) -> u32 {
    (le_u16(bytes, at) + 0x1_0000 * le_u16(bytes, at + 2)) as u32
}

/// The unsigned 64-bit value stored at `at`.
pub open spec fn le_u64(bytes: Seq<u8>, at: int) -> u64 {
    (le_u32(bytes, at) + 0x1_0000_0000 * le_u32(bytes, at + 4)) as u64
}

/// The signed reading of a 16-bit pattern (two's complement).
pub open spec fn signed16(u: u16) -> i16 {
    if u < 0x8000 {
        u as i16
    } else {
        (u - 0x1_0000) as i16
    }
}

/// The 16-bit pattern of a signed value (two's complement).
pub open spec fn unsigned16(x: i16) -> u16 {
    if x >= 0 {
        x as u16
    } else {
        (x + 0x1_0000) as u16
    }
}

/// The signed reading of a byte (two's complement).
pub open spec fn signed8(u: u8) -> i8 {
    if u < 0x80 {
        u as i8
    } else {
        (u - 0x100) as i8
    }
}

/// The byte of a signed value (two's complement).
pub open spec fn unsigned8(x: i8) -> u8 {
    if x >= 0 {
        x as u8
    } else {
        (x + 0x100) as u8
    }
}

/// The signed 16-bit value stored at `at`.
pub open spec fn le_i16(bytes: Seq<u8>, at: int) -> i16 {
    signed16(le_u16(bytes, at))
}

/// The two bytes that store `x`.
pub open spec fn u16_le_bytes(x: u16) -> Seq<u8> {
    seq![(x % 0x100) as u8, (x / 0x100) as u8]
}

/// The four bytes that store `x`.
pub open spec fn u32_le_bytes(x: u32) -> Seq<u8> {
    u16_le_bytes((x % 0x1_0000) as u16) + u16_le_bytes((x / 0x1_0000) as u16)
}

/// The eight bytes that store `x`.
pub open spec fn u64_le_bytes(x: u64) -> Seq<u8> {
    u32_le_bytes((x % 0x1_0000_0000) as u32) + u32_le_bytes((x / 0x1_0000_0000) as u32)
}

/// The two bytes that store the signed `x`.
pub open spec fn i16_le_bytes(x: i16) -> Seq<u8> {
    u16_le_bytes(unsigned16(x))
}

/// Reading what was written gives the value back.
pub proof fn lemma_u16_value_round_trip(x: u16)
    ensures
        u16_le_bytes(x).len() == 2,
        le_u16(u16_le_bytes(x), 0) == x,
{
}

/// Writing what was read gives the bytes back.
pub proof fn lemma_u16_bytes_round_trip(bytes: Seq<u8>, at: int)
    requires
        0 <= at,
        at + 2 <= bytes.len(),
    ensures
        u16_le_bytes(le_u16(bytes, at)) == bytes.subrange(at, at + 2),
{
    let x = le_u16(bytes, at);
    assert(x == bytes[at] + 0x100 * bytes[at + 1]);
    assert(x % 0x100 == bytes[at]);
    assert(x / 0x100 == bytes[at + 1]);
    assert(u16_le_bytes(x) =~= bytes.subrange(at, at + 2));
}

/// Reading what was written gives the value back.
pub proof fn lemma_u32_value_round_trip(x: u32)
    ensures
        u32_le_bytes(x).len() == 4,
        le_u32(u32_le_bytes(x), 0) == x,
{
    let lo = (x % 0x1_0000) as u16;
    let hi = (x / 0x1_0000) as u16;
    lemma_u16_value_round_trip(lo);
    lemma_u16_value_round_trip(hi);
    let b = u32_le_bytes(x);
    assert(b[0] == u16_le_bytes(lo)[0] && b[1] == u16_le_bytes(lo)[1]);
    assert(b[2] == u16_le_bytes(hi)[0] && b[3] == u16_le_bytes(hi)[1]);
    assert(le_u16(b, 0) == lo);
    assert(le_u16(b, 2) == hi);
}

/// Writing what was read gives the bytes back.
pub proof fn lemma_u32_bytes_round_trip(bytes: Seq<u8>, at: int)
    requires
        0 <= at,
        at + 4 <= bytes.len(),
    ensures
        u32_le_bytes(le_u32(bytes, at)) == bytes.subrange(at, at + 4),
{
    let lo = le_u16(bytes, at);
    let hi = le_u16(bytes, at + 2);
    let x = le_u32(bytes, at);
    assert(x == lo + 0x1_0000 * hi);
    assert(x % 0x1_0000 == lo);
    assert(x / 0x1_0000 == hi);
    lemma_u16_bytes_round_trip(bytes, at);
    lemma_u16_bytes_round_trip(bytes, at + 2);
    assert(u32_le_bytes(x) =~= bytes.subrange(at, at + 4));
}

/// Reading what was written gives the value back.
pub proof fn lemma_u64_value_round_trip(x: u64)
    ensures
        u64_le_bytes(x).len() == 8,
        le_u64(u64_le_bytes(x), 0) == x,
{
    let lo = (x % 0x1_0000_0000) as u32;
    let hi = (x / 0x1_0000_0000) as u32;
    lemma_u32_value_round_trip(lo);
    lemma_u32_value_round_trip(hi);
    let b = u64_le_bytes(x);
    let bl = u32_le_bytes(lo);
    let bh = u32_le_bytes(hi);
    assert(b[0] == bl[0] && b[1] == bl[1] && b[2] == bl[2] && b[3] == bl[3]);
    assert(b[4] == bh[0] && b[5] == bh[1] && b[6] == bh[2] && b[7] == bh[3]);
    assert(le_u32(b, 0) == lo);
    assert(le_u32(b, 4) == hi);
}

/// Writing what was read gives the bytes back.
pub proof fn lemma_u64_bytes_round_trip(bytes: Seq<u8>, at: int)
    requires
        0 <= at,
        at + 8 <= bytes.len(),
    ensures
        u64_le_bytes(le_u64(bytes, at)) == bytes.subrange(at, at + 8),
{
    let lo = le_u32(bytes, at);
    let hi = le_u32(bytes, at + 4);
    let x = le_u64(bytes, at);
    assert(x == lo + 0x1_0000_0000 * hi);
    assert(x % 0x1_0000_0000 == lo);
    assert(x / 0x1_0000_0000 == hi);
    lemma_u32_bytes_round_trip(bytes, at);
    lemma_u32_bytes_round_trip(bytes, at + 4);
    assert(u64_le_bytes(x) =~= bytes.subrange(at, at + 8));
}

/// The two readings of a 16-bit pattern determine each other.
pub proof fn lemma_signed16_round_trip(u: u16, x: i16)
    ensures
        unsigned16(signed16(u)) == u,
        signed16(unsigned16(x)) == x,
{
}

/// The two readings of a byte determine each other.
pub proof fn lemma_signed8_round_trip(u: u8, x: i8)
    ensures
        unsigned8(signed8(u)) == u,
        signed8(unsigned8(x)) == x,
{
}

/// Reads the unsigned 16-bit value at `at`.
pub fn read_u16(bytes: &[u8], at: usize) -> (r: u16)
    requires
        at + 2 <= bytes@.len(),
    ensures
        r == le_u16(bytes@, at as int),
{
    (bytes[at] as u16) + 0x100 * (bytes[at + 1] as u16)
}

/// Reads the unsigned 32-bit value at `at`.
pub fn read_u32(bytes: &[u8], at: usize) -> (r: u32)
    requires
        at + 4 <= bytes@.len(),
    ensures
        r == le_u32(bytes@, at as int),
{
    let len = bytes.len();
    assert(at + 4 <= len);
    (read_u16(bytes, at) as u32) + 0x1_0000 * (read_u16(bytes, at + 2) as u32)
}

/// Reads the unsigned 64-bit value at `at`.
pub fn read_u64(bytes: &[u8], at: usize) -> (r: u64)
    requires
        at + 8 <= bytes@.len(),
    ensures
        r == le_u64(bytes@, at as int),
{
    let len = bytes.len();
    assert(at + 8 <= len);
    (read_u32(bytes, at) as u64) + 0x1_0000_0000 * (read_u32(bytes, at + 4) as u64)
}

/// The signed value of a 16-bit pattern.
pub fn to_signed16(u: u16) -> (r: i16)
    ensures
        r == signed16(u),
{
    if u < 0x8000 {
        u as i16
    } else {
        (u as i32 - 0x1_0000) as i16
    }
}

/// The 16-bit pattern of a signed value.
pub fn to_unsigned16(x: i16) -> (r: u16)
    ensures
        r == unsigned16(x),
{
    if x >= 0 {
        x as u16
    } else {
        (x as i32 + 0x1_0000) as u16
    }
}

/// The signed value of a byte.
pub fn to_signed8(u: u8) -> (r: i8)
    ensures
        r == signed8(u),
{
    if u < 0x80 {
        u as i8
    } else {
        (u as i16 - 0x100) as i8
    }
}

/// The byte of a signed value.
pub fn to_unsigned8(x: i8) -> (r: u8)
    ensures
        r == unsigned8(x),
{
    if x >= 0 {
        x as u8
    } else {
        (x as i16 + 0x100) as u8
    }
}

/// Reads the signed 16-bit value at `at`.
pub fn read_i16(bytes: &[u8], at: usize) -> (r: i16)
    requires
        at + 2 <= bytes@.len(),
    ensures
        r == le_i16(bytes@, at as int),
{
    to_signed16(read_u16(bytes, at))
}

/// Copies the `N` bytes at `at` into an array.
pub fn read_array<const N: usize>(bytes: &[u8], at: usize) -> (r: [u8; N])
    requires
        at + N <= bytes@.len(),
    ensures
        r@ == bytes@.subrange(at as int, at + N),
{
    let len = bytes.len();
    let mut r = [0u8; N];
    let mut i: usize = 0;
    while i < N
        invariant
            i <= N,
            len == bytes@.len(),
            at + N <= len,
            forall|j: int| 0 <= j < i ==> r@[j] == bytes@[at + j],
        decreases N - i,
    {
        r[i] = bytes[at + i];
        i += 1;
    }
    assert(r@ =~= bytes@.subrange(at as int, at + N));
    r
}

/// Appends the two bytes of `x`.
pub fn push_u16(out: &mut Vec<u8>, x: u16)
    ensures
        final(out)@ == old(out)@ + u16_le_bytes(x),
{
    out.push((x % 0x100) as u8);
    out.push((x / 0x100) as u8);
    assert(out@ =~= old(out)@ + u16_le_bytes(x));
}

/// Appends the four bytes of `x`.
pub fn push_u32(out: &mut Vec<u8>, x: u32)
    ensures
        final(out)@ == old(out)@ + u32_le_bytes(x),
{
    push_u16(out, (x % 0x1_0000) as u16);
    push_u16(out, (x / 0x1_0000) as u16);
    assert(out@ =~= old(out)@ + u32_le_bytes(x));
}

/// Appends the eight bytes of `x`.
pub fn push_u64(out: &mut Vec<u8>, x: u64)
    ensures
        final(out)@ == old(out)@ + u64_le_bytes(x),
{
    push_u32(out, (x % 0x1_0000_0000) as u32);
    push_u32(out, (x / 0x1_0000_0000) as u32);
    assert(out@ =~= old(out)@ + u64_le_bytes(x));
}

/// Appends the two bytes of the signed `x`.
pub fn push_i16(out: &mut Vec<u8>, x: i16)
    ensures
        final(out)@ == old(out)@ + i16_le_bytes(x),
{
    push_u16(out, to_unsigned16(x));
}

/// Appends every byte of `src`.
pub fn push_bytes(out: &mut Vec<u8>, src: &[u8])
    ensures
        final(out)@ == old(out)@ + src@,
{
    let mut i: usize = 0;
    while i < src.len()
        invariant
            i <= src@.len(),
            out@ == old(out)@ + src@.subrange(0, i as int),
        decreases src@.len() - i,
    {
        out.push(src[i]);
        i += 1;
        assert(out@ =~= old(out)@ + src@.subrange(0, i as int));
    }
    assert(src@.subrange(0, i as int) =~= src@);
}

/// The flag that a byte of the file stands for: any non-zero byte is set.
pub open spec fn flag_of(b: u8) -> bool {
    b != 0
}

/// The byte that stands for a flag in the file.
pub open spec fn flag_byte(f: bool) -> u8 {
    if f {
        1
    } else {
        0
    }
}

/// How one 64-bit value is stored.
pub open spec fn u64_enc() -> spec_fn(u64) -> Seq<u8> {
    |x: u64| u64_le_bytes(x)
}

/// How one 32-bit value is stored.
pub open spec fn u32_enc() -> spec_fn(u32) -> Seq<u8> {
    |x: u32| u32_le_bytes(x)
}

/// How one signed 16-bit value is stored.
pub open spec fn i16_enc() -> spec_fn(i16) -> Seq<u8> {
    |x: i16| i16_le_bytes(x)
}

/// How one signed byte is stored.
pub open spec fn i8_enc() -> spec_fn(i8) -> Seq<u8> {
    |x: i8| seq![unsigned8(x)]
}

/// How one flag is stored.
pub open spec fn flag_enc() -> spec_fn(bool) -> Seq<u8> {
    |f: bool| seq![flag_byte(f)]
}

/// The bytes of a run of 64-bit values.
pub open spec fn u64s_le_bytes(items: Seq<u64>) -> Seq<u8> {
    laid_out(items, u64_enc())
}

/// The bytes of a run of 32-bit values.
pub open spec fn u32s_le_bytes(items: Seq<u32>) -> Seq<u8> {
    laid_out(items, u32_enc())
}

/// The bytes of a run of signed 16-bit values.
pub open spec fn i16s_le_bytes(items: Seq<i16>) -> Seq<u8> {
    laid_out(items, i16_enc())
}

/// The bytes of a run of signed bytes.
pub open spec fn i8s_bytes(items: Seq<i8>) -> Seq<u8> {
    laid_out(items, i8_enc())
}

/// The bytes of a run of flags.
pub open spec fn flags_bytes(items: Seq<bool>) -> Seq<u8> {
    laid_out(items, flag_enc())
}

/// `items` are the 64-bit values stored from `at` on.
pub open spec fn u64s_at(items: Seq<u64>, bytes: Seq<u8>, at: int) -> bool {
    forall|i: int| 0 <= i < items.len() ==> #[trigger] items[i] == le_u64(bytes, at + 8 * i)
}

/// `items` are the 32-bit values stored from `at` on.
pub open spec fn u32s_at(items: Seq<u32>, bytes: Seq<u8>, at: int) -> bool {
    forall|i: int| 0 <= i < items.len() ==> #[trigger] items[i] == le_u32(bytes, at + 4 * i)
}

/// `items` are the signed 16-bit values stored from `at` on.
pub open spec fn i16s_at(items: Seq<i16>, bytes: Seq<u8>, at: int) -> bool {
    forall|i: int| 0 <= i < items.len() ==> #[trigger] items[i] == le_i16(bytes, at + 2 * i)
}

/// `items` are the signed bytes stored from `at` on.
pub open spec fn i8s_at(items: Seq<i8>, bytes: Seq<u8>, at: int) -> bool {
    forall|i: int| 0 <= i < items.len() ==> #[trigger] items[i] == signed8(bytes[at + i])
}

/// `items` are the flags stored from `at` on.
pub open spec fn flags_at(items: Seq<bool>, bytes: Seq<u8>, at: int) -> bool {
    forall|i: int| 0 <= i < items.len() ==> #[trigger] items[i] == flag_of(bytes[at + i])
}

/// Every byte of `bytes[from..to]` is 0 or 1: the only bytes that a flag is
/// written as.
pub open spec fn flags_canonical(bytes: Seq<u8>, from: int, to: int) -> bool {
    forall|i: int| from <= i < to ==> #[trigger] bytes[i] <= 1
}

/// Values read from a buffer encode to the bytes they were read from.
pub proof fn lemma_u64s_bytes_round_trip(items: Seq<u64>, bytes: Seq<u8>, at: int)
    requires
        0 <= at,
        at + 8 * items.len() <= bytes.len(),
        u64s_at(items, bytes, at),
    ensures
        u64s_le_bytes(items) == bytes.subrange(at, at + 8 * items.len()),
{
    assert forall|i: int| 0 <= i < items.len() implies #[trigger] u64_enc()(items[i])
        == bytes.subrange(at + 8 * i, at + 8 * i + 8) by {
        lemma_u64_bytes_round_trip(bytes, at + 8 * i);
    }
    lemma_laid_out_found(items, u64_enc(), 8, bytes, at);
}

/// Values read from a buffer encode to the bytes they were read from.
pub proof fn lemma_u32s_bytes_round_trip(items: Seq<u32>, bytes: Seq<u8>, at: int)
    requires
        0 <= at,
        at + 4 * items.len() <= bytes.len(),
        u32s_at(items, bytes, at),
    ensures
        u32s_le_bytes(items) == bytes.subrange(at, at + 4 * items.len()),
{
    assert forall|i: int| 0 <= i < items.len() implies #[trigger] u32_enc()(items[i])
        == bytes.subrange(at + 4 * i, at + 4 * i + 4) by {
        lemma_u32_bytes_round_trip(bytes, at + 4 * i);
    }
    lemma_laid_out_found(items, u32_enc(), 4, bytes, at);
}

/// Values read from a buffer encode to the bytes they were read from.
pub proof fn lemma_i16s_bytes_round_trip(items: Seq<i16>, bytes: Seq<u8>, at: int)
    requires
        0 <= at,
        at + 2 * items.len() <= bytes.len(),
        i16s_at(items, bytes, at),
    ensures
        i16s_le_bytes(items) == bytes.subrange(at, at + 2 * items.len()),
{
    assert forall|i: int| 0 <= i < items.len() implies #[trigger] i16_enc()(items[i])
        == bytes.subrange(at + 2 * i, at + 2 * i + 2) by {
        lemma_u16_bytes_round_trip(bytes, at + 2 * i);
        lemma_signed16_round_trip(le_u16(bytes, at + 2 * i), 0);
    }
    lemma_laid_out_found(items, i16_enc(), 2, bytes, at);
}

/// Values read from a buffer encode to the bytes they were read from.
pub proof fn lemma_i8s_bytes_round_trip(items: Seq<i8>, bytes: Seq<u8>, at: int)
    requires
        0 <= at,
        at + items.len() <= bytes.len(),
        i8s_at(items, bytes, at),
    ensures
        i8s_bytes(items) == bytes.subrange(at, at + items.len()),
{
    assert forall|i: int| 0 <= i < items.len() implies #[trigger] i8_enc()(items[i])
        == bytes.subrange(at + 1 * i, at + 1 * i + 1) by {
        lemma_signed8_round_trip(bytes[at + i], 0);
        assert(seq![unsigned8(items[i])] =~= bytes.subrange(at + i, at + i + 1));
    }
    lemma_laid_out_found(items, i8_enc(), 1, bytes, at);
}

/// Flags read from canonical bytes encode to the bytes they were read from.
pub proof fn lemma_flags_bytes_round_trip(items: Seq<bool>, bytes: Seq<u8>, at: int)
    requires
        0 <= at,
        at + items.len() <= bytes.len(),
        flags_at(items, bytes, at),
        flags_canonical(bytes, at, at + items.len()),
    ensures
        flags_bytes(items) == bytes.subrange(at, at + items.len()),
{
    assert forall|i: int| 0 <= i < items.len() implies #[trigger] flag_enc()(items[i])
        == bytes.subrange(at + 1 * i, at + 1 * i + 1) by {
        assert(bytes[at + i] <= 1);
        assert(seq![flag_byte(items[i])] =~= bytes.subrange(at + i, at + i + 1));
    }
    lemma_laid_out_found(items, flag_enc(), 1, bytes, at);
}

/// Where a buffer holds the bytes of a value, the value is read from it.
pub proof fn lemma_u16_read_back(bytes: Seq<u8>, at: int, x: u16)
    requires
        0 <= at,
        at + 2 <= bytes.len(),
        bytes.subrange(at, at + 2) == u16_le_bytes(x),
    ensures
        le_u16(bytes, at) == x,
{
    let part = bytes.subrange(at, at + 2);
    assert(part[0] == bytes[at] && part[1] == bytes[at + 1]);
    lemma_u16_value_round_trip(x);
}

/// Where a buffer holds the bytes of a value, the value is read from it.
pub proof fn lemma_u32_read_back(bytes: Seq<u8>, at: int, x: u32)
    requires
        0 <= at,
        at + 4 <= bytes.len(),
        bytes.subrange(at, at + 4) == u32_le_bytes(x),
    ensures
        le_u32(bytes, at) == x,
{
    let part = bytes.subrange(at, at + 4);
    assert(part[0] == bytes[at] && part[1] == bytes[at + 1]);
    assert(part[2] == bytes[at + 2] && part[3] == bytes[at + 3]);
    lemma_u32_value_round_trip(x);
    assert(le_u16(bytes, at) == le_u16(part, 0));
    assert(le_u16(bytes, at + 2) == le_u16(part, 2));
}

/// Where a buffer holds the bytes of a value, the value is read from it.
pub proof fn lemma_u64_read_back(bytes: Seq<u8>, at: int, x: u64)
    requires
        0 <= at,
        at + 8 <= bytes.len(),
        bytes.subrange(at, at + 8) == u64_le_bytes(x),
    ensures
        le_u64(bytes, at) == x,
{
    let part = bytes.subrange(at, at + 8);
    assert(part[0] == bytes[at] && part[1] == bytes[at + 1]);
    assert(part[2] == bytes[at + 2] && part[3] == bytes[at + 3]);
    assert(part[4] == bytes[at + 4] && part[5] == bytes[at + 5]);
    assert(part[6] == bytes[at + 6] && part[7] == bytes[at + 7]);
    lemma_u64_value_round_trip(x);
    assert(le_u16(bytes, at) == le_u16(part, 0));
    assert(le_u16(bytes, at + 2) == le_u16(part, 2));
    assert(le_u16(bytes, at + 4) == le_u16(part, 4));
    assert(le_u16(bytes, at + 6) == le_u16(part, 6));
    assert(le_u32(bytes, at) == le_u32(part, 0));
    assert(le_u32(bytes, at + 4) == le_u32(part, 4));
}

/// Where a buffer holds the bytes of a run, the run is read from it.
pub proof fn lemma_u64s_read_back(items: Seq<u64>, bytes: Seq<u8>, at: int)
    requires
        0 <= at,
        at + 8 * items.len() <= bytes.len(),
        bytes.subrange(at, at + 8 * items.len()) == u64s_le_bytes(items),
    ensures
        u64s_at(items, bytes, at),
{
    assert forall|i: int| 0 <= i < items.len() implies (#[trigger] u64_enc()(items[i])).len()
        == 8 by {
        lemma_u64_value_round_trip(items[i]);
    }
    assert forall|i: int| 0 <= i < items.len() implies #[trigger] items[i] == le_u64(
        bytes,
        at + 8 * i,
    ) by {
        lemma_laid_out_record(items, u64_enc(), 8, i);
        assert(bytes.subrange(at + 8 * i, at + 8 * i + 8) =~= bytes.subrange(
            at,
            at + 8 * items.len(),
        ).subrange(8 * i, 8 * i + 8));
        lemma_u64_read_back(bytes, at + 8 * i, items[i]);
    }
}

/// Where a buffer holds the bytes of a run, the run is read from it.
pub proof fn lemma_u32s_read_back(items: Seq<u32>, bytes: Seq<u8>, at: int)
    requires
        0 <= at,
        at + 4 * items.len() <= bytes.len(),
        bytes.subrange(at, at + 4 * items.len()) == u32s_le_bytes(items),
    ensures
        u32s_at(items, bytes, at),
{
    assert forall|i: int| 0 <= i < items.len() implies (#[trigger] u32_enc()(items[i])).len()
        == 4 by {
        lemma_u32_value_round_trip(items[i]);
    }
    assert forall|i: int| 0 <= i < items.len() implies #[trigger] items[i] == le_u32(
        bytes,
        at + 4 * i,
    ) by {
        lemma_laid_out_record(items, u32_enc(), 4, i);
        assert(bytes.subrange(at + 4 * i, at + 4 * i + 4) =~= bytes.subrange(
            at,
            at + 4 * items.len(),
        ).subrange(4 * i, 4 * i + 4));
        lemma_u32_read_back(bytes, at + 4 * i, items[i]);
    }
}

/// Where a buffer holds the bytes of a run, the run is read from it.
pub proof fn lemma_i16s_read_back(items: Seq<i16>, bytes: Seq<u8>, at: int)
    requires
        0 <= at,
        at + 2 * items.len() <= bytes.len(),
        bytes.subrange(at, at + 2 * items.len()) == i16s_le_bytes(items),
    ensures
        i16s_at(items, bytes, at),
{
    assert forall|i: int| 0 <= i < items.len() implies (#[trigger] i16_enc()(items[i])).len()
        == 2 by {
        lemma_u16_value_round_trip(unsigned16(items[i]));
    }
    assert forall|i: int| 0 <= i < items.len() implies #[trigger] items[i] == le_i16(
        bytes,
        at + 2 * i,
    ) by {
        lemma_laid_out_record(items, i16_enc(), 2, i);
        assert(bytes.subrange(at + 2 * i, at + 2 * i + 2) =~= bytes.subrange(
            at,
            at + 2 * items.len(),
        ).subrange(2 * i, 2 * i + 2));
        lemma_u16_read_back(bytes, at + 2 * i, unsigned16(items[i]));
        lemma_signed16_round_trip(0, items[i]);
    }
}

/// Where a buffer holds the bytes of a run, the run is read from it.
pub proof fn lemma_i8s_read_back(items: Seq<i8>, bytes: Seq<u8>, at: int)
    requires
        0 <= at,
        at + items.len() <= bytes.len(),
        bytes.subrange(at, at + items.len()) == i8s_bytes(items),
    ensures
        i8s_at(items, bytes, at),
{
    assert(all_wide(items, i8_enc(), 1));
    assert forall|i: int| 0 <= i < items.len() implies #[trigger] items[i] == signed8(
        bytes[at + i],
    ) by {
        lemma_laid_out_record(items, i8_enc(), 1, i);
        let part = bytes.subrange(at, at + items.len()).subrange(1 * i, 1 * i + 1);
        assert(part[0] == bytes[at + i]);
        assert(part == seq![unsigned8(items[i])]);
        lemma_signed8_round_trip(0, items[i]);
    }
}

/// Where a buffer holds the bytes of a run, the run is read from it.
pub proof fn lemma_flags_read_back(items: Seq<bool>, bytes: Seq<u8>, at: int)
    requires
        0 <= at,
        at + items.len() <= bytes.len(),
        bytes.subrange(at, at + items.len()) == flags_bytes(items),
    ensures
        flags_at(items, bytes, at),
{
    assert(all_wide(items, flag_enc(), 1));
    assert forall|i: int| 0 <= i < items.len() implies #[trigger] items[i] == flag_of(
        bytes[at + i],
    ) by {
        lemma_flag_in_run(items, i);
        assert(bytes.subrange(at, at + items.len())[i] == bytes[at + i]);
    }
}

/// Inside a run of flags, byte `i` is the byte of flag `i`.
proof fn lemma_flag_in_run(items: Seq<bool>, i: int)
    requires
        0 <= i < items.len(),
    ensures
        i < flags_bytes(items).len(),
        flags_bytes(items)[i] == flag_byte(items[i]),
{
    assert(all_wide(items, flag_enc(), 1));
    lemma_laid_out_record(items, flag_enc(), 1, i);
    let part = flags_bytes(items).subrange(1 * i, 1 * i + 1);
    assert(part == seq![flag_byte(items[i])]);
    assert(part[0] == flags_bytes(items)[i]);
}

/// A run of 64-bit values is eight bytes a value.
pub proof fn lemma_u64s_len(items: Seq<u64>)
    ensures
        u64s_le_bytes(items).len() == 8 * items.len(),
{
    assert forall|i: int| 0 <= i < items.len() implies (#[trigger] u64_enc()(items[i])).len()
        == 8 by {
        lemma_u64_value_round_trip(items[i]);
    }
    lemma_laid_out_len(items, u64_enc(), 8);
}

/// A run of 32-bit values is four bytes a value.
pub proof fn lemma_u32s_len(items: Seq<u32>)
    ensures
        u32s_le_bytes(items).len() == 4 * items.len(),
{
    assert forall|i: int| 0 <= i < items.len() implies (#[trigger] u32_enc()(items[i])).len()
        == 4 by {
        lemma_u32_value_round_trip(items[i]);
    }
    lemma_laid_out_len(items, u32_enc(), 4);
}

/// A run of signed 16-bit values is two bytes a value.
pub proof fn lemma_i16s_len(items: Seq<i16>)
    ensures
        i16s_le_bytes(items).len() == 2 * items.len(),
{
    assert forall|i: int| 0 <= i < items.len() implies (#[trigger] i16_enc()(items[i])).len()
        == 2 by {
        lemma_u16_value_round_trip(unsigned16(items[i]));
    }
    lemma_laid_out_len(items, i16_enc(), 2);
}

/// A run of signed bytes is one byte a value.
pub proof fn lemma_i8s_len(items: Seq<i8>)
    ensures
        i8s_bytes(items).len() == items.len(),
{
    assert(all_wide(items, i8_enc(), 1));
    lemma_laid_out_len(items, i8_enc(), 1);
}

/// A run of flags is one byte a flag.
pub proof fn lemma_flags_len(items: Seq<bool>)
    ensures
        flags_bytes(items).len() == items.len(),
{
    assert(all_wide(items, flag_enc(), 1));
    lemma_laid_out_len(items, flag_enc(), 1);
}

/// Reads `N` 64-bit values from `at` on.
pub fn read_u64_array<const N: usize>(bytes: &[u8], at: usize) -> (r: [u64; N])
    requires
        at + 8 * N <= bytes@.len(),
    ensures
        u64s_at(r@, bytes@, at as int),
{
    let len = bytes.len();
    let mut r = [0u64; N];
    let mut i: usize = 0;
    while i < N
        invariant
            i <= N,
            len == bytes@.len(),
            at + 8 * N <= len,
            forall|j: int| 0 <= j < i ==> #[trigger] r@[j] == le_u64(bytes@, at + 8 * j),
        decreases N - i,
    {
        r[i] = read_u64(bytes, at + 8 * i);
        i += 1;
    }
    r
}

/// Reads `N` 32-bit values from `at` on.
pub fn read_u32_array<const N: usize>(bytes: &[u8], at: usize) -> (r: [u32; N])
    requires
        at + 4 * N <= bytes@.len(),
    ensures
        u32s_at(r@, bytes@, at as int),
{
    let len = bytes.len();
    let mut r = [0u32; N];
    let mut i: usize = 0;
    while i < N
        invariant
            i <= N,
            len == bytes@.len(),
            at + 4 * N <= len,
            forall|j: int| 0 <= j < i ==> #[trigger] r@[j] == le_u32(bytes@, at + 4 * j),
        decreases N - i,
    {
        r[i] = read_u32(bytes, at + 4 * i);
        i += 1;
    }
    r
}

/// Reads `N` signed 16-bit values from `at` on.
pub fn read_i16_array<const N: usize>(bytes: &[u8], at: usize) -> (r: [i16; N])
    requires
        at + 2 * N <= bytes@.len(),
    ensures
        i16s_at(r@, bytes@, at as int),
{
    let len = bytes.len();
    let mut r = [0i16; N];
    let mut i: usize = 0;
    while i < N
        invariant
            i <= N,
            len == bytes@.len(),
            at + 2 * N <= len,
            forall|j: int| 0 <= j < i ==> #[trigger] r@[j] == le_i16(bytes@, at + 2 * j),
        decreases N - i,
    {
        r[i] = read_i16(bytes, at + 2 * i);
        i += 1;
    }
    r
}

/// Reads `N` signed bytes from `at` on.
pub fn read_i8_array<const N: usize>(bytes: &[u8], at: usize) -> (r: [i8; N])
    requires
        at + N <= bytes@.len(),
    ensures
        i8s_at(r@, bytes@, at as int),
{
    let len = bytes.len();
    let mut r = [0i8; N];
    let mut i: usize = 0;
    while i < N
        invariant
            i <= N,
            len == bytes@.len(),
            at + N <= len,
            forall|j: int| 0 <= j < i ==> #[trigger] r@[j] == signed8(bytes@[at + j]),
        decreases N - i,
    {
        r[i] = to_signed8(bytes[at + i]);
        i += 1;
    }
    r
}

/// Reads `N` flags from `at` on.
pub fn read_flag_array<const N: usize>(bytes: &[u8], at: usize) -> (r: [bool; N])
    requires
        at + N <= bytes@.len(),
    ensures
        flags_at(r@, bytes@, at as int),
{
    let len = bytes.len();
    let mut r = [false; N];
    let mut i: usize = 0;
    while i < N
        invariant
            i <= N,
            len == bytes@.len(),
            at + N <= len,
            forall|j: int| 0 <= j < i ==> #[trigger] r@[j] == flag_of(bytes@[at + j]),
        decreases N - i,
    {
        r[i] = bytes[at + i] != 0;
        i += 1;
    }
    r
}

/// Appends a run of 64-bit values.
pub fn push_u64s(out: &mut Vec<u8>, items: &[u64])
    ensures
        final(out)@ == old(out)@ + u64s_le_bytes(items@),
{
    let mut i: usize = 0;
    while i < items.len()
        invariant
            i <= items@.len(),
            out@ == old(out)@ + u64s_le_bytes(items@.take(i as int)),
        decreases items@.len() - i,
    {
        proof {
            lemma_laid_out_push(items@.take(i as int), u64_enc(), items@[i as int]);
            assert(items@.take(i as int).push(items@[i as int]) =~= items@.take(i + 1));
        }
        push_u64(out, items[i]);
        i += 1;
        assert(out@ =~= old(out)@ + u64s_le_bytes(items@.take(i as int)));
    }
    assert(items@.take(i as int) =~= items@);
}

/// Appends a run of 32-bit values.
pub fn push_u32s(out: &mut Vec<u8>, items: &[u32])
    ensures
        final(out)@ == old(out)@ + u32s_le_bytes(items@),
{
    let mut i: usize = 0;
    while i < items.len()
        invariant
            i <= items@.len(),
            out@ == old(out)@ + u32s_le_bytes(items@.take(i as int)),
        decreases items@.len() - i,
    {
        proof {
            lemma_laid_out_push(items@.take(i as int), u32_enc(), items@[i as int]);
            assert(items@.take(i as int).push(items@[i as int]) =~= items@.take(i + 1));
        }
        push_u32(out, items[i]);
        i += 1;
        assert(out@ =~= old(out)@ + u32s_le_bytes(items@.take(i as int)));
    }
    assert(items@.take(i as int) =~= items@);
}

/// Appends a run of signed 16-bit values.
pub fn push_i16s(out: &mut Vec<u8>, items: &[i16])
    ensures
        final(out)@ == old(out)@ + i16s_le_bytes(items@),
{
    let mut i: usize = 0;
    while i < items.len()
        invariant
            i <= items@.len(),
            out@ == old(out)@ + i16s_le_bytes(items@.take(i as int)),
        decreases items@.len() - i,
    {
        proof {
            lemma_laid_out_push(items@.take(i as int), i16_enc(), items@[i as int]);
            assert(items@.take(i as int).push(items@[i as int]) =~= items@.take(i + 1));
        }
        push_i16(out, items[i]);
        i += 1;
        assert(out@ =~= old(out)@ + i16s_le_bytes(items@.take(i as int)));
    }
    assert(items@.take(i as int) =~= items@);
}

/// Appends a run of signed bytes.
pub fn push_i8s(out: &mut Vec<u8>, items: &[i8])
    ensures
        final(out)@ == old(out)@ + i8s_bytes(items@),
{
    let mut i: usize = 0;
    while i < items.len()
        invariant
            i <= items@.len(),
            out@ == old(out)@ + i8s_bytes(items@.take(i as int)),
        decreases items@.len() - i,
    {
        proof {
            lemma_laid_out_push(items@.take(i as int), i8_enc(), items@[i as int]);
            assert(items@.take(i as int).push(items@[i as int]) =~= items@.take(i + 1));
        }
        out.push(to_unsigned8(items[i]));
        i += 1;
        assert(out@ =~= old(out)@ + i8s_bytes(items@.take(i as int)));
    }
    assert(items@.take(i as int) =~= items@);
}

/// Appends a run of flags, each as 0 or 1.
pub fn push_flags(out: &mut Vec<u8>, items: &[bool])
    ensures
        final(out)@ == old(out)@ + flags_bytes(items@),
{
    let mut i: usize = 0;
    while i < items.len()
        invariant
            i <= items@.len(),
            out@ == old(out)@ + flags_bytes(items@.take(i as int)),
        decreases items@.len() - i,
    {
        proof {
            lemma_laid_out_push(items@.take(i as int), flag_enc(), items@[i as int]);
            assert(items@.take(i as int).push(items@[i as int]) =~= items@.take(i + 1));
        }
        out.push(if items[i] { 1 } else { 0 });
        i += 1;
        assert(out@ =~= old(out)@ + flags_bytes(items@.take(i as int)));
    }
    assert(items@.take(i as int) =~= items@);
}


} // verus!
