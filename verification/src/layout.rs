//! Fixed-width records laid end to end.
//!
//! The parallel arrays of the home-menu files are runs of equally wide
//! records with nothing between them. `laid_out` is the byte string of such
//! a run; the lemmas relate it to the records' places inside a buffer.

use vstd::prelude::*;

verus! {

/// The encodings of `items`, one after the other.
pub open spec fn laid_out<T>(items: Seq<T>, enc: spec_fn(T) -> Seq<u8>) -> Seq<u8>
    decreases items.len(),
{
    if items.len() == 0 {
        Seq::empty()
    } else {
        laid_out(items.drop_last(), enc) + enc(items.last())
    }
}

/// Every record of `items` is encoded in `width` bytes.
pub open spec fn all_wide<T>(items: Seq<T>, enc: spec_fn(T) -> Seq<u8>, width: int) -> bool {
    forall|i: int| 0 <= i < items.len() ==> (#[trigger] enc(items[i])).len() == width
}

/// A run of `n` records of `width` bytes is `width * n` bytes long.
pub proof fn lemma_laid_out_len<T>(items: Seq<T>, enc: spec_fn(T) -> Seq<u8>, width: int)
    requires
        all_wide(items, enc, width),
    ensures
        laid_out(items, enc).len() == width * items.len(),
    decreases items.len(),
{
    if items.len() > 0 {
        let rest = items.drop_last();
        assert forall|i: int| 0 <= i < rest.len() implies (#[trigger] enc(rest[i])).len()
            == width by {
            assert(rest[i] == items[i]);
        }
        lemma_laid_out_len(rest, enc, width);
        assert(enc(items[items.len() - 1]).len() == width);
        assert(width * (items.len() - 1) + width == width * items.len()) by (nonlinear_arith);
    } else {
        assert(width * 0 == 0) by (nonlinear_arith);
    }
}

/// Appending a record appends its encoding.
pub proof fn lemma_laid_out_push<T>(items: Seq<T>, enc: spec_fn(T) -> Seq<u8>, item: T)
    ensures
        laid_out(items.push(item), enc) == laid_out(items, enc) + enc(item),
{
    assert(items.push(item).drop_last() =~= items);
}

/// Where each record's encoding is found at its place in `bytes`, the whole
/// run is found at `at`.
pub proof fn lemma_laid_out_found<T>(
    items: Seq<T>,
    enc: spec_fn(T) -> Seq<u8>,
    width: int,
    bytes: Seq<u8>,
    at: int,
)
    requires
        0 <= at,
        0 <= width,
        at + width * items.len() <= bytes.len(),
        forall|i: int|
            0 <= i < items.len() ==> #[trigger] enc(items[i]) == bytes.subrange(
                at + width * i,
                at + width * i + width,
            ),
    ensures
        laid_out(items, enc) == bytes.subrange(at, at + width * items.len()),
    decreases items.len(),
{
    let n = items.len() as int;
    if n > 0 {
        let rest = items.drop_last();
        assert(width * (n - 1) + width == width * n) by (nonlinear_arith);
        assert(0 <= width * (n - 1)) by (nonlinear_arith)
            requires
                0 <= width,
                n >= 1,
        ;
        assert forall|i: int| 0 <= i < rest.len() implies #[trigger] enc(rest[i])
            == bytes.subrange(at + width * i, at + width * i + width) by {
            assert(rest[i] == items[i]);
        }
        lemma_laid_out_found(rest, enc, width, bytes, at);
        assert(enc(items[n - 1]) == bytes.subrange(
            at + width * (n - 1),
            at + width * (n - 1) + width,
        ));
        assert(laid_out(items, enc) =~= bytes.subrange(at, at + width * n));
    } else {
        assert(width * 0 == 0) by (nonlinear_arith);
        assert(laid_out(items, enc) =~= bytes.subrange(at, at + width * n));
    }
}

/// Inside a run, record `i` is the `width` bytes from `width * i` on.
pub proof fn lemma_laid_out_record<T>(
    items: Seq<T>,
    enc: spec_fn(T) -> Seq<u8>,
    width: int,
    i: int,
)
    requires
        0 <= width,
        all_wide(items, enc, width),
        0 <= i < items.len(),
    ensures
        width * i + width <= laid_out(items, enc).len(),
        laid_out(items, enc).subrange(width * i, width * i + width) == enc(items[i]),
    decreases items.len(),
{
    let n = items.len() as int;
    let rest = items.drop_last();
    assert forall|j: int| 0 <= j < rest.len() implies (#[trigger] enc(rest[j])).len() == width by {
        assert(rest[j] == items[j]);
    }
    lemma_laid_out_len(rest, enc, width);
    lemma_laid_out_len(items, enc, width);
    assert(width * (n - 1) + width == width * n) by (nonlinear_arith);
    assert(enc(items[n - 1]).len() == width);
    if i == n - 1 {
        assert(laid_out(items, enc).subrange(width * i, width * i + width) =~= enc(items[i]));
    } else {
        lemma_laid_out_record(rest, enc, width, i);
        assert(rest[i] == items[i]);
        assert(width * i + width <= width * (n - 1)) by (nonlinear_arith)
            requires
                0 <= width,
                0 <= i < n - 1,
        ;
        assert(laid_out(items, enc).subrange(width * i, width * i + width) =~= laid_out(
            rest,
            enc,
        ).subrange(width * i, width * i + width));
    }
}

/// Two neighbouring stretches of a buffer make one stretch.
pub proof fn lemma_stretch_join(bytes: Seq<u8>, from: int, mid: int, to: int)
    requires
        0 <= from <= mid <= to <= bytes.len(),
    ensures
        bytes.subrange(from, mid) + bytes.subrange(mid, to) == bytes.subrange(from, to),
{
    assert(bytes.subrange(from, mid) + bytes.subrange(mid, to) =~= bytes.subrange(from, to));
}

/// A stretch of a stretch is a stretch of the buffer.
pub proof fn lemma_stretch_of_stretch(bytes: Seq<u8>, at: int, len: int, from: int, to: int)
    requires
        0 <= at,
        at + len <= bytes.len(),
        0 <= from <= to <= len,
    ensures
        bytes.subrange(at, at + len).subrange(from, to) == bytes.subrange(at + from, at + to),
{
    assert(bytes.subrange(at, at + len).subrange(from, to) =~= bytes.subrange(
        at + from,
        at + to,
    ));
}

/// Appending a piece puts it behind the head and leaves every stretch of
/// the head as it was.
pub proof fn lemma_append_piece(head: Seq<u8>, piece: Seq<u8>)
    ensures
        (head + piece).len() == head.len() + piece.len(),
        (head + piece).subrange(head.len() as int, (head.len() + piece.len()) as int) == piece,
        forall|from: int, to: int|
            0 <= from <= to <= head.len() ==> #[trigger] (head + piece).subrange(from, to)
                == head.subrange(from, to),
{
    assert((head + piece).subrange(head.len() as int, (head.len() + piece.len()) as int) =~= piece);
    assert forall|from: int, to: int| 0 <= from <= to <= head.len() implies #[trigger] (head
        + piece).subrange(from, to) == head.subrange(from, to) by {
        assert((head + piece).subrange(from, to) =~= head.subrange(from, to));
    }
}

} // verus!
