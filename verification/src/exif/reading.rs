//! What reading a stream gives, told from its bytes.
//!
//! The laws here speak of byte positions, tag numbers and field types as TIFF
//! 6.0 and Exif 3.0 print them.
use super::codec::{u16_at, u32_at, ByteOrder};
use super::model::{entries_at, entry_at, ifd_at, rows_inside, EntryView};
use super::tags::element_size;
use vstd::prelude::*;

verus! {

/// Integers are read with the first byte highest (`MM`) or lowest (`II`).
pub proof fn law_integers(s: Seq<u8>, o: int)
    ensures
        u16_at(s, o, ByteOrder::Big) == s[o] * 256 + s[o + 1],
        u16_at(s, o, ByteOrder::Little) == s[o + 1] * 256 + s[o],
        u32_at(s, o, ByteOrder::Big) == s[o] * 16777216 + s[o + 1] * 65536 + s[o + 2] * 256 + s[o
            + 3],
        u32_at(s, o, ByteOrder::Little) == s[o + 3] * 16777216 + s[o + 2] * 65536 + s[o + 1] * 256
            + s[o],
{
    reveal(u16_at);
    reveal(u32_at);
}

/// A value of field type `kind` takes `size` bytes: one for BYTE, ASCII, SBYTE,
/// UNDEFINED and UTF-8, two for SHORT and SSHORT, four for LONG, SLONG, FLOAT
/// and IFD, eight for RATIONAL, SRATIONAL and DOUBLE.
pub open spec fn takes(kind: u16, size: int) -> bool {
    ||| size == 1 && (kind == 1 || kind == 2 || kind == 6 || kind == 7 || kind == 129)
    ||| size == 2 && (kind == 3 || kind == 8)
    ||| size == 4 && (kind == 4 || kind == 9 || kind == 11 || kind == 13)
    ||| size == 8 && (kind == 5 || kind == 10 || kind == 12)
}

/// The fourteen field types have the sizes of the standard, and no other number
/// is a field type.
pub proof fn law_field_sizes(kind: u16, size: nat)
    ensures
        element_size(kind) == Some(size) <==> takes(kind, size as int),
        element_size(kind) is Some <==> 1 <= kind <= 13 || kind == 129,
        element_size(5) == Some(8nat),
        element_size(10) == Some(8nat),
        element_size(12) == Some(8nat),
{
}

/// The entries of the directory at `off`; none where there is no directory.
pub open spec fn rows_of(tiff: Seq<u8>, off: int, order: ByteOrder) -> Seq<EntryView> {
    match ifd_at(tiff, off, order) {
        Some((es, _)) => es,
        None => Seq::empty(),
    }
}

/// Among the entries read from the first `n` rows is the one of row `k`, if it
/// can be read.
proof fn lemma_rows_hold(tiff: Seq<u8>, start: int, n: nat, order: ByteOrder, k: int)
    requires
        0 <= k < n,
        entry_at(tiff, start + 12 * k, order) is Some,
    ensures
        entries_at(tiff, start, n, order).contains(entry_at(tiff, start + 12 * k, order)->0),
    decreases n,
{
    let es = entries_at(tiff, start, n, order);
    let before = entries_at(tiff, start, (n - 1) as nat, order);
    let e = entry_at(tiff, start + 12 * k, order)->0;
    if k == n - 1 {
        assert(es[es.len() - 1] == e);
    } else {
        lemma_rows_hold(tiff, start, (n - 1) as nat, order, k);
        let j = choose|j: int| 0 <= j < before.len() && before[j] == e;
        assert(es[j] == e);
    }
}

/// Every entry read from the first `n` rows is that of one of them.
proof fn lemma_from_rows(tiff: Seq<u8>, start: int, n: nat, order: ByteOrder, i: int) -> (k: int)
    requires
        0 <= i < entries_at(tiff, start, n, order).len(),
    ensures
        i <= k < n,
        entry_at(tiff, start + 12 * k, order) == Some(entries_at(tiff, start, n, order)[i]),
        entries_at(tiff, start, n, order).len() <= n,
    decreases n,
{
    let before = entries_at(tiff, start, (n - 1) as nat, order);
    lemma_no_more_than_rows(tiff, start, n, order);
    lemma_no_more_than_rows(tiff, start, (n - 1) as nat, order);
    if i == before.len() {
        n - 1
    } else {
        lemma_from_rows(tiff, start, (n - 1) as nat, order, i)
    }
}

/// A row gives at most one entry.
proof fn lemma_no_more_than_rows(tiff: Seq<u8>, start: int, n: nat, order: ByteOrder)
    ensures
        entries_at(tiff, start, n, order).len() <= n,
    decreases n,
{
    if n > 0 {
        lemma_no_more_than_rows(tiff, start, (n - 1) as nat, order);
    }
}

/// A directory of at most 1000 rows, each twelve bytes, behind a two-byte count:
/// every row that is there, has a field type of the standard and a value inside
/// the stream is read, with its tag, type, count and value. Up to four bytes of
/// value stand in the row itself, longer ones where the row points.
pub proof fn law_row_is_read(tiff: Seq<u8>, off: int, order: ByteOrder, k: int, size: int)
    requires
        0 <= off,
        off + 2 <= tiff.len(),
        0 <= k < u16_at(tiff, off, order) <= 1000,
        off + 2 + 12 * k + 12 <= tiff.len(),
        takes(u16_at(tiff, off + 2 + 12 * k + 2, order), size),
        u32_at(tiff, off + 2 + 12 * k + 4, order) * size <= 4 || u32_at(
            tiff,
            off + 2 + 12 * k + 8,
            order,
        ) + u32_at(tiff, off + 2 + 12 * k + 4, order) * size <= tiff.len(),
    ensures
        ifd_at(tiff, off, order) is Some,
        exists|i: int|
            0 <= i < rows_of(tiff, off, order).len() && ({
                let e = #[trigger] rows_of(tiff, off, order)[i];
                let row = off + 2 + 12 * k;
                let len = u32_at(tiff, row + 4, order) * size;
                let at = if len <= 4 { row + 8 } else { u32_at(tiff, row + 8, order) as int };
                &&& e.tag == u16_at(tiff, row, order)
                &&& e.kind == u16_at(tiff, row + 2, order)
                &&& e.count == u32_at(tiff, row + 4, order)
                &&& e.value == tiff.subrange(at, at + len)
                &&& e.value.len() == e.count * size
                &&& e.origin() == Some(at as nat)
            }),
{
    let row = off + 2 + 12 * k;
    let n = u16_at(tiff, off, order) as int;
    let rows = rows_inside(tiff.len() as int, off + 2, n);
    assert(k < rows <= n);
    let es = entries_at(tiff, off + 2, rows as nat, order);
    let count = u32_at(tiff, row + 4, order);
    assert(element_size(u16_at(tiff, row + 2, order)) == Some(size as nat));
    assert(count * size >= 0) by (nonlinear_arith)
        requires
            count >= 0,
            size >= 0,
    ;
    assert(entry_at(tiff, row, order) is Some);
    lemma_rows_hold(tiff, off + 2, rows as nat, order, k);
    let i = choose|i: int| 0 <= i < es.len() && es[i] == entry_at(tiff, row, order)->0;
    assert(rows_of(tiff, off, order)[i] == entry_at(tiff, row, order)->0);
}

/// Nothing else is read: every entry of a directory is that of one of its rows,
/// of a field type of the standard, and its value lies inside the stream.
pub proof fn law_only_rows_are_read(tiff: Seq<u8>, off: int, order: ByteOrder, i: int)
    requires
        0 <= off,
        ifd_at(tiff, off, order) is Some,
        0 <= i < rows_of(tiff, off, order).len(),
    ensures
        exists|k: int|
            #![trigger u16_at(tiff, off + 2 + 12 * k, order)]
            i <= k < u16_at(tiff, off, order) && off + 2 + 12 * k + 12 <= tiff.len() && ({
                let e = rows_of(tiff, off, order)[i];
                let row = off + 2 + 12 * k;
                &&& e.tag == u16_at(tiff, row, order)
                &&& e.kind == u16_at(tiff, row + 2, order)
                &&& e.count == u32_at(tiff, row + 4, order)
                &&& 1 <= e.kind <= 13 || e.kind == 129
                &&& takes(e.kind, 1) ==> e.value.len() == e.count
                &&& takes(e.kind, 2) ==> e.value.len() == e.count * 2
                &&& takes(e.kind, 4) ==> e.value.len() == e.count * 4
                &&& takes(e.kind, 8) ==> e.value.len() == e.count * 8
                &&& e.value.len() <= 4 ==> e.value == tiff.subrange(row + 8, row + 8 + e.value.len())
                &&& e.value.len() > 4 ==> e.value == tiff.subrange(
                    u32_at(tiff, row + 8, order) as int,
                    u32_at(tiff, row + 8, order) + e.value.len(),
                )
            }),
{
    let n = u16_at(tiff, off, order) as int;
    let rows = rows_inside(tiff.len() as int, off + 2, n);
    assert(rows <= n && off + 2 + 12 * rows <= tiff.len());
    let es = entries_at(tiff, off + 2, rows as nat, order);
    let k = lemma_from_rows(tiff, off + 2, rows as nat, order, i);
    let row = off + 2 + 12 * k;
    let e = es[i];
    assert(entry_at(tiff, row, order) == Some(e));
    let size = element_size(e.kind)->0;
    assert(e.count * size >= 0) by (nonlinear_arith)
        requires
            e.count >= 0,
            size >= 0,
    ;
    assert(e.tag == u16_at(tiff, row, order));
}

/// A directory is there exactly if its two-byte count is and says at most 1000;
/// behind its whole table stands the offset of the next one, else there is none.
pub proof fn law_directory_is_read(tiff: Seq<u8>, off: int, order: ByteOrder)
    requires
        0 <= off,
    ensures
        ifd_at(tiff, off, order) is Some <==> off + 2 <= tiff.len() && u16_at(tiff, off, order)
            <= 1000,
        ifd_at(tiff, off, order) matches Some((_, next)) ==> {
            let end = off + 2 + 12 * u16_at(tiff, off, order);
            next == if end + 4 <= tiff.len() { u32_at(tiff, end, order) } else { 0 }
        },
{
}

/// Whether the row at `row` has a field type of the standard and its value inside
/// the stream.
pub open spec fn is_readable(tiff: Seq<u8>, row: int, order: ByteOrder) -> bool {
    let kind = u16_at(tiff, row + 2, order);
    let count = u32_at(tiff, row + 4, order);
    let room = tiff.len() - u32_at(tiff, row + 8, order);
    ||| takes(kind, 1) && (count <= 4 || count <= room)
    ||| takes(kind, 2) && (count * 2 <= 4 || count * 2 <= room)
    ||| takes(kind, 4) && (count * 4 <= 4 || count * 4 <= room)
    ||| takes(kind, 8) && (count * 8 <= 4 || count * 8 <= room)
}

/// A directory whose rows can all be read has an entry with a tag exactly if one of
/// its rows, twelve bytes apart, starts with it.
pub proof fn law_tags_of_a_directory(tiff: Seq<u8>, off: int, order: ByteOrder, tag: u16)
    requires
        0 <= off,
        off + 2 <= tiff.len(),
        u16_at(tiff, off, order) <= 1000,
        off + 2 + 12 * u16_at(tiff, off, order) <= tiff.len(),
        forall|k: int|
            0 <= k < u16_at(tiff, off, order) ==> #[trigger] is_readable(
                tiff,
                off + 2 + 12 * k,
                order,
            ),
    ensures
        (exists|i: int|
            0 <= i < rows_of(tiff, off, order).len() && (#[trigger] rows_of(tiff, off, order)[i]).tag
                == tag) <==> exists|k: int|
            0 <= k < u16_at(tiff, off, order) && #[trigger] u16_at(tiff, off + 2 + 12 * k, order)
                == tag,
{
    let es = rows_of(tiff, off, order);
    let n = u16_at(tiff, off, order);
    if exists|i: int| 0 <= i < es.len() && (#[trigger] es[i]).tag == tag {
        let i = choose|i: int| 0 <= i < es.len() && (#[trigger] es[i]).tag == tag;
        law_only_rows_are_read(tiff, off, order, i);
    }
    if exists|k: int| 0 <= k < n && #[trigger] u16_at(tiff, off + 2 + 12 * k, order) == tag {
        let k = choose|k: int|
            0 <= k < n && #[trigger] u16_at(tiff, off + 2 + 12 * k, order) == tag;
        let row = off + 2 + 12 * k;
        assert(is_readable(tiff, row, order));
        let kind = u16_at(tiff, row + 2, order);
        let size: int = if takes(kind, 1) {
            1
        } else if takes(kind, 2) {
            2
        } else if takes(kind, 4) {
            4
        } else {
            8
        };
        assert(12 * k + 12 <= 12 * n);
        law_row_is_read(tiff, off, order, k, size);
    }
}

} // verus!
