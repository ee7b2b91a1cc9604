//! Rewriting the orientation value inside a blob.
use super::codec::{lemma_bytes16_reads_back, lemma_bytes32_reads_back, u16_at, u32_at, ByteOrder};
use super::edit::{orientation_of, uint_field};
use super::model::{
    entries_at, entry_at, first_index, first_with, has_prefix, ifd_at, parse_blob, parse_tiff,
    pointer_in, rows_inside, tiff_of, tree_of, uint_value, without_pointer, without_tags, EntryView,
    ExifView,
};
use super::provenance::lemma_parsed_tree;
use super::retain::{
    lemma_orientation_inside, orientation_offset, oriented_in_place, overwritten, reoriented,
    Outcome,
};
use super::roundtrip::{is_tag, lemma_first_of_tag};
use super::sorting::lemma_filter_none;
use super::tags::{TAG_EXIF_IFD, TAG_GPS_IFD, TAG_ORIENTATION, TIFF_LONG, TIFF_SHORT};
use super::tree::lemma_first_index;
use crate::orientation::{lemma_orientation_codes, Orientation};
use vstd::prelude::*;

verus! {

broadcast use {super::codec::lemma_bytes16_len, super::codec::lemma_bytes32_len};

/// Rewriting the orientation in place keeps the blob's length and every byte
/// outside the value: two bytes of a SHORT, four of a LONG.
pub proof fn law_in_place_is_local(
    data: Seq<u8>,
    x: ExifView,
    e: EntryView,
    o: Orientation,
    i: int,
)
    requires
        parse_blob(data) == Some(x),
        first_with(x.ifd0, TAG_ORIENTATION) == Some(e),
        oriented_in_place(data, x, o) is Some,
        0 <= i < data.len(),
        !(orientation_offset(x) <= i < orientation_offset(x) + uint_width(e.kind)),
    ensures
        (oriented_in_place(data, x, o)->0).len() == data.len(),
        (oriented_in_place(data, x, o)->0)[i] == data[i],
{
    lemma_orientation_inside(data);
}

// ── Entries of one tag ──────────────────────────────────────────────────────

/// Filtering out other tags keeps the entries of a tag.
proof fn lemma_without_keeps(d: Seq<EntryView>, a: u16, b: u16, tag: u16)
    requires
        tag != a,
        tag != b,
    ensures
        without_tags(d, a, b).filter(is_tag(tag)) == d.filter(is_tag(tag)),
    decreases d.len(),
{
    reveal(Seq::filter);
    if d.len() > 0 {
        let q = |e: EntryView| e.tag != a && e.tag != b;
        lemma_without_keeps(d.drop_last(), a, b, tag);
        let f = d.drop_last().filter(q);
        if q(d.last()) {
            assert(f.push(d.last()).drop_last() =~= f);
        }
    }
}

/// Removing an entry of another tag keeps the entries of a tag.
proof fn lemma_remove_keeps(d: Seq<EntryView>, k: int, tag: u16)
    requires
        0 <= k < d.len(),
        d[k].tag != tag,
    ensures
        d.remove(k).filter(is_tag(tag)) == d.filter(is_tag(tag)),
{
    let p = is_tag(tag);
    let a = d.take(k);
    let b = seq![d[k]];
    let c = d.skip(k + 1);
    assert(d =~= a + b + c);
    assert(d.remove(k) =~= a + c);
    Seq::filter_distributes_over_add(a + b, c, p);
    Seq::filter_distributes_over_add(a, b, p);
    Seq::filter_distributes_over_add(a, c, p);
    lemma_filter_none(b, p);
    assert(a.filter(p) + Seq::<EntryView>::empty() =~= a.filter(p));
}

/// Taking out a pointer keeps the entries of another tag.
pub proof fn lemma_pointer_keeps(d: Seq<EntryView>, ptr: u16, order: ByteOrder, tag: u16)
    requires
        ptr != tag,
    ensures
        without_pointer(d, ptr, order).filter(is_tag(tag)) == d.filter(is_tag(tag)),
{
    lemma_first_index(d, ptr);
    if pointer_in(d, ptr, order) is Some {
        lemma_remove_keeps(d, first_index(d, ptr), tag);
    }
}

/// The first entry with a tag that is no pointer is that of the directory as
/// stored.
pub proof fn lemma_tree_first(
    tiff: Seq<u8>,
    had_prefix: bool,
    order: ByteOrder,
    raw: Seq<EntryView>,
    next: u32,
    tag: u16,
)
    requires
        tag != TAG_EXIF_IFD,
        tag != TAG_GPS_IFD,
    ensures
        first_with(tree_of(tiff, had_prefix, order, raw, next).ifd0, tag) == first_with(raw, tag),
{
    let x = tree_of(tiff, had_prefix, order, raw, next);
    let r1 = without_pointer(raw, TAG_EXIF_IFD, order);
    let r2 = without_pointer(r1, TAG_GPS_IFD, order);
    lemma_pointer_keeps(raw, TAG_EXIF_IFD, order, tag);
    lemma_pointer_keeps(r1, TAG_GPS_IFD, order, tag);
    let r3 = if x.exif_ifd is Some {
        without_tags(r2, TAG_EXIF_IFD, TAG_EXIF_IFD)
    } else {
        r2
    };
    lemma_without_keeps(r2, TAG_EXIF_IFD, TAG_EXIF_IFD, tag);
    lemma_without_keeps(r3, TAG_GPS_IFD, TAG_GPS_IFD, tag);
    lemma_first_of_tag(raw, tag);
    lemma_first_of_tag(x.ifd0, tag);
}

// ── The table after a rewrite ───────────────────────────────────────────────

/// Whether two entries agree in all but their values' bytes.
pub open spec fn same_shape(a: EntryView, b: EntryView) -> bool {
    a.tag == b.tag && a.kind == b.kind && a.count == b.count && a.origin() == b.origin()
        && a.value.len() == b.value.len()
}

/// Whether two lists agree in all but their values' bytes.
pub open spec fn same_shapes(a: Seq<EntryView>, b: Seq<EntryView>) -> bool {
    a.len() == b.len() && forall|i: int|
        0 <= i < a.len() ==> same_shape(#[trigger] a[i], #[trigger] b[i])
}

/// Whether `t` differs from `s` at most in the `n` bytes at `w`.
pub open spec fn same_but(s: Seq<u8>, t: Seq<u8>, w: int, n: int) -> bool {
    s.len() == t.len() && forall|i: int|
        0 <= i < s.len() && !(w <= i < w + n) ==> #[trigger] s[i] == t[i]
}

/// Whether rewriting the `n` bytes at `w` leaves the row at `row` its shape:
/// they are outside the row, or they are its value field and the value is in
/// it.
pub open spec fn row_withstands(s: Seq<u8>, row: int, order: ByteOrder, w: int, n: int) -> bool {
    ||| w + n <= row
    ||| w >= row + 12
    ||| w == row + 8 && n <= 4 && (entry_at(s, row, order) matches Some(e) && e.value.len() <= 4)
}

/// Each row keeps its shape when it withstands a rewrite.
proof fn lemma_row_shape(s: Seq<u8>, t: Seq<u8>, row: int, order: ByteOrder, w: int, n: int)
    requires
        0 <= row,
        row + 12 <= s.len(),
        same_but(s, t, w, n),
        row_withstands(s, row, order, w, n),
    ensures
        entry_at(s, row, order) is Some <==> entry_at(t, row, order) is Some,
        entry_at(s, row, order) matches Some(e) ==> same_shape(e, entry_at(t, row, order)->0),
{
    reveal(u16_at);
    reveal(u32_at);
    assert(s[row] == t[row] && s[row + 1] == t[row + 1] && s[row + 2] == t[row + 2] && s[row + 3]
        == t[row + 3]);
    assert(s[row + 4] == t[row + 4] && s[row + 5] == t[row + 5] && s[row + 6] == t[row + 6] && s[row
        + 7] == t[row + 7]);
    if w != row + 8 {
        assert(s[row + 8] == t[row + 8] && s[row + 9] == t[row + 9] && s[row + 10] == t[row + 10]
            && s[row + 11] == t[row + 11]);
    }
}

/// A table keeps its shape when each of its rows withstands a rewrite.
pub proof fn lemma_table_shape(
    s: Seq<u8>,
    t: Seq<u8>,
    start: int,
    rows: nat,
    order: ByteOrder,
    w: int,
    n: int,
)
    requires
        0 <= start,
        start + 12 * rows <= s.len(),
        same_but(s, t, w, n),
        forall|k: int| 0 <= k < rows ==> row_withstands(s, #[trigger] (start + 12 * k), order, w, n),
    ensures
        same_shapes(entries_at(s, start, rows, order), entries_at(t, start, rows, order)),
    decreases rows,
{
    if rows > 0 {
        let k = rows - 1;
        lemma_table_shape(s, t, start, k as nat, order, w, n);
        assert(row_withstands(s, start + 12 * k, order, w, n));
        lemma_row_shape(s, t, start + 12 * k, order, w, n);
    }
}

/// Every entry is the entry of a row.
pub proof fn lemma_entry_row(s: Seq<u8>, start: int, rows: nat, i: int, order: ByteOrder) -> (k: int)
    requires
        0 <= start,
        start + 12 * rows <= s.len(),
        0 <= i < entries_at(s, start, rows, order).len(),
    ensures
        0 <= k < rows,
        entry_at(s, start + 12 * k, order) == Some(entries_at(s, start, rows, order)[i]),
    decreases rows,
{
    let before = entries_at(s, start, (rows - 1) as nat, order);
    if i < before.len() {
        lemma_entry_row(s, start, (rows - 1) as nat, i, order)
    } else {
        rows - 1
    }
}

/// Same shapes have their first entries at the same place.
pub proof fn lemma_shape_first(a: Seq<EntryView>, b: Seq<EntryView>, tag: u16)
    requires
        same_shapes(a, b),
    ensures
        first_index(a, tag) == first_index(b, tag),
{
    lemma_first_index(a, tag);
    lemma_first_index(b, tag);
    let i = first_index(a, tag);
    let j = first_index(b, tag);
    if i < j {
        assert(same_shape(a[i], b[i]));
    }
    if j < i {
        assert(same_shape(a[j], b[j]));
    }
}

// ── The first directory after a rewrite ─────────────────────────────────────

/// How many rows of the directory at `off` are read.
pub open spec fn rows_at(s: Seq<u8>, off: int, order: ByteOrder) -> int {
    rows_inside(s.len() as int, off + 2, u16_at(s, off, order) as int)
}

/// Whether the `n` bytes at `w` are apart from the header and from the first
/// directory's table.
pub open spec fn apart_from_table(s: Seq<u8>, order: ByteOrder, w: int, n: int) -> bool {
    let off = u32_at(s, 4, order) as int;
    w >= 8 && (w + n <= off || w >= off + 2 + 12 * rows_at(s, off, order))
}

/// How many bytes an integer of type `kind` takes.
pub open spec fn uint_width(kind: u16) -> int {
    if kind == TIFF_SHORT {
        2
    } else {
        4
    }
}

/// Whether rewriting the integer value of entry `e` of the first directory
/// touches nothing that the stream is found by: the value is in its table row,
/// or apart from the header and the table.
pub open spec fn rewritable(s: Seq<u8>, order: ByteOrder, e: EntryView) -> bool {
    e.value.len() <= 4 || apart_from_table(s, order, e.origin()->0 as int, uint_width(e.kind))
}

/// A rewritable value starts past the header, and every row withstands the
/// rewrite.
proof fn lemma_rewrite_withstood(s: Seq<u8>, order: ByteOrder, i: int)
    requires
        ({
            let off = u32_at(s, 4, order) as int;
            &&& off + 2 <= s.len()
            &&& 0 <= i < entries_at(s, off + 2, rows_at(s, off, order) as nat, order).len()
            &&& rewritable(
                s,
                order,
                entries_at(s, off + 2, rows_at(s, off, order) as nat, order)[i],
            )
        }),
    ensures
        ({
            let off = u32_at(s, 4, order) as int;
            let e = entries_at(s, off + 2, rows_at(s, off, order) as nat, order)[i];
            let w = e.origin()->0 as int;
            let n = uint_width(e.kind);
            &&& e.origin() is Some
            &&& w >= 8
            &&& w + n <= off || w >= off + 2
            &&& forall|k: int|
                0 <= k < rows_at(s, off, order) ==> row_withstands(
                    s,
                    #[trigger] (off + 2 + 12 * k),
                    order,
                    w,
                    n,
                )
        }),
{
    let off = u32_at(s, 4, order) as int;
    let rows = rows_at(s, off, order) as nat;
    assert(off + 2 + 12 * rows <= s.len());
    let k = lemma_entry_row(s, off + 2, rows, i, order);
}

/// The first directory of a stream in which a rewritable orientation value was
/// rewritten has its shape, and its orientation entry is at its place.
pub proof fn lemma_rewritten_dir(s: Seq<u8>, t: Seq<u8>, order: ByteOrder, e: EntryView)
    requires
        ifd_at(s, u32_at(s, 4, order) as int, order) is Some,
        first_with((ifd_at(s, u32_at(s, 4, order) as int, order)->0).0, TAG_ORIENTATION) == Some(e),
        rewritable(s, order, e),
        same_but(s, t, e.origin()->0 as int, uint_width(e.kind)),
    ensures
        e.origin() is Some,
        e.origin()->0 >= 8,
        ifd_at(t, u32_at(s, 4, order) as int, order) is Some,
        same_shapes(
            (ifd_at(s, u32_at(s, 4, order) as int, order)->0).0,
            (ifd_at(t, u32_at(s, 4, order) as int, order)->0).0,
        ),
        first_with(
            (ifd_at(t, u32_at(s, 4, order) as int, order)->0).0,
            TAG_ORIENTATION,
        ) matches Some(f) && same_shape(e, f) && f.value == t.subrange(
            f.origin()->0 as int,
            (f.origin()->0 + f.value.len()) as int,
        ) && f.origin()->0 + f.value.len() <= t.len(),
{
    let off = u32_at(s, 4, order) as int;
    let start = off + 2;
    let rows = rows_at(s, off, order) as nat;
    let raw = entries_at(s, start, rows, order);
    lemma_first_index(raw, TAG_ORIENTATION);
    let i = first_index(raw, TAG_ORIENTATION);
    assert(raw[i] == e);
    assert(start + 12 * rows <= s.len());
    lemma_rewrite_withstood(s, order, i);
    let w = e.origin()->0 as int;
    let n = uint_width(e.kind);
    assert(s[off] == t[off] && s[off + 1] == t[off + 1]);
    assert(u16_at(t, off, order) == u16_at(s, off, order)) by {
        reveal(u16_at);
    }
    lemma_table_shape(s, t, start, rows, order, w, n);
    let again = entries_at(t, start, rows, order);
    assert((ifd_at(t, off, order)->0).0 == again);
    lemma_shape_first(raw, again, TAG_ORIENTATION);
    lemma_first_index(again, TAG_ORIENTATION);
    assert(same_shape(raw[i], again[i]));
    let j = lemma_entry_row(t, start, rows, i, order);
}

/// An integer value whose bytes are those of an orientation reads as it.
proof fn lemma_field_reads_back(
    t: Seq<u8>,
    order: ByteOrder,
    f: EntryView,
    o: Orientation,
    w: int,
)
    requires
        0 <= w,
        w + f.value.len() <= t.len(),
        f.value == t.subrange(w, w + f.value.len()),
        f.kind == TIFF_SHORT || f.kind == TIFF_LONG,
        f.value.len() >= uint_width(f.kind),
        uint_field(f.kind, o.code(), order) == Some(t.subrange(w, w + uint_width(f.kind))),
    ensures
        uint_value(f, order) == Some(o.code() as u32),
{
    let v = t.subrange(w, w + uint_width(f.kind));
    assert(f.value[0] == v[0]);
    assert(f.value[1] == v[1]);
    if f.kind == TIFF_SHORT {
        lemma_bytes16_reads_back(o.code() as u16, order);
        assert(u16_at(f.value, 0, order) == u16_at(v, 0, order)) by {
            reveal(u16_at);
        }
    } else {
        lemma_bytes32_reads_back(o.code() as u32, order);
        assert(f.value[2] == v[2]);
        assert(f.value[3] == v[3]);
        assert(u32_at(f.value, 0, order) == u32_at(v, 0, order)) by {
            reveal(u32_at);
        }
    }
}

// ── The stream and the blob after a rewrite ─────────────────────────────────

/// A rewrite past the header keeps the framing.
proof fn lemma_reframed(data: Seq<u8>, w: int, value: Seq<u8>)
    requires
        8 <= w,
        w + value.len() <= tiff_of(data).len(),
    ensures
        ({
            let p: int = if has_prefix(data) {
                6
            } else {
                0
            };
            let b = overwritten(data, p + w, value);
            &&& b.len() == data.len()
            &&& has_prefix(b) == has_prefix(data)
            &&& same_but(tiff_of(data), tiff_of(b), w, value.len() as int)
            &&& tiff_of(b).subrange(w, w + value.len()) == value
        }),
{
    let p: int = if has_prefix(data) {
        6
    } else {
        0
    };
    let b = overwritten(data, p + w, value);
    if data.len() >= 6 {
        assert(b.subrange(0, 6) =~= data.subrange(0, 6));
    }
    assert(tiff_of(b) =~= b.skip(p));
    assert(b.skip(p).subrange(w, w + value.len()) =~= value);
}

/// A stream in which a rewritable orientation value was rewritten parses, with
/// its orientation entry at its place.
proof fn lemma_rewritten_tiff(s: Seq<u8>, t: Seq<u8>, x: ExifView, e: EntryView)
    requires
        parse_tiff(s, x.had_prefix) == Some(x),
        first_with(x.ifd0, TAG_ORIENTATION) == Some(e),
        rewritable(s, x.order, e),
        same_but(s, t, e.origin()->0 as int, uint_width(e.kind)),
    ensures
        ({
            &&& parse_tiff(t, x.had_prefix) matches Some(y)
            &&& y.order == x.order
            &&& y.had_prefix == x.had_prefix
            &&& first_with(y.ifd0, TAG_ORIENTATION) matches Some(f)
            &&& same_shape(e, f)
            &&& f.origin()->0 + f.value.len() <= t.len()
            &&& f.value == t.subrange(
                f.origin()->0 as int,
                (f.origin()->0 + f.value.len()) as int,
            )
        }),
{
    let order = x.order;
    let off = u32_at(s, 4, order) as int;
    let (raw, next) = ifd_at(s, off, order)->0;
    lemma_tree_first(s, x.had_prefix, order, raw, next, TAG_ORIENTATION);
    lemma_rewritten_dir(s, t, order, e);
    assert(s[0] == t[0] && s[1] == t[1] && s[2] == t[2] && s[3] == t[3]);
    assert(s[4] == t[4] && s[5] == t[5] && s[6] == t[6] && s[7] == t[7]);
    assert(u16_at(t, 2, order) == u16_at(s, 2, order) && u32_at(t, 4, order) == u32_at(s, 4, order))
        by {
        reveal(u16_at);
        reveal(u32_at);
    }
    let (again, after) = ifd_at(t, off, order)->0;
    lemma_tree_first(t, x.had_prefix, order, again, after, TAG_ORIENTATION);
}

/// A rewritable value of a parsed tree starts past the header.
proof fn lemma_past_header(s: Seq<u8>, x: ExifView, e: EntryView)
    requires
        parse_tiff(s, x.had_prefix) == Some(x),
        first_with(x.ifd0, TAG_ORIENTATION) == Some(e),
        rewritable(s, x.order, e),
    ensures
        e.origin() matches Some(w) && w >= 8,
{
    let order = x.order;
    let off = u32_at(s, 4, order) as int;
    let (raw, next) = ifd_at(s, off, order)->0;
    lemma_tree_first(s, x.had_prefix, order, raw, next, TAG_ORIENTATION);
    lemma_first_index(raw, TAG_ORIENTATION);
    lemma_rewrite_withstood(s, order, first_index(raw, TAG_ORIENTATION));
}

/// A blob in which a rewritable orientation value was rewritten parses, in the
/// same framing and byte order, with its orientation entry at its place.
pub proof fn lemma_rewritten_blob(data: Seq<u8>, x: ExifView, e: EntryView, o: Orientation)
    requires
        parse_blob(data) == Some(x),
        first_with(x.ifd0, TAG_ORIENTATION) == Some(e),
        uint_field(e.kind, o.code(), x.order) is Some,
        rewritable(tiff_of(data), x.order, e),
    ensures
        ({
            &&& oriented_in_place(data, x, o) matches Some(b)
            &&& b.len() == data.len()
            &&& has_prefix(b) == has_prefix(data)
            &&& e.origin()->0 >= 8
            &&& same_but(tiff_of(data), tiff_of(b), e.origin()->0 as int, uint_width(e.kind))
            &&& parse_blob(b) matches Some(y)
            &&& y.order == x.order
            &&& y.had_prefix == x.had_prefix
            &&& first_with(y.ifd0, TAG_ORIENTATION) matches Some(f)
            &&& same_shape(e, f)
            &&& uint_value(e, x.order) is Some ==> uint_value(f, x.order) == Some(o.code() as u32)
        }),
{
    lemma_orientation_inside(data);
    lemma_parsed_tree(data);
    lemma_first_index(x.ifd0, TAG_ORIENTATION);
    let s = tiff_of(data);
    let w = e.origin()->0 as int;
    let value = uint_field(e.kind, o.code(), x.order)->0;
    lemma_past_header(s, x, e);
    lemma_reframed(data, w, value);
    let b = oriented_in_place(data, x, o)->0;
    let t = tiff_of(b);
    lemma_rewritten_tiff(s, t, x, e);
    let y = parse_blob(b)->0;
    let f = first_with(y.ifd0, TAG_ORIENTATION)->0;
    if uint_value(e, x.order) is Some {
        lemma_field_reads_back(t, x.order, f, o, w);
    }
}

// ── Laws ────────────────────────────────────────────────────────────────────

/// Rewriting a readable orientation value is read back: the blob still parses,
/// in the same framing and byte order, and declares the new orientation. The
/// value must not overlap the header or the table that it is found by.
pub proof fn law_in_place_reads_back(data: Seq<u8>, x: ExifView, e: EntryView, o: Orientation)
    requires
        parse_blob(data) == Some(x),
        first_with(x.ifd0, TAG_ORIENTATION) == Some(e),
        uint_value(e, x.order) is Some,
        rewritable(tiff_of(data), x.order, e),
    ensures
        oriented_in_place(data, x, o) matches Some(b) && parse_blob(b) matches Some(y)
            && orientation_of(y.ifd0, y.order) == Some(o) && y.order == x.order && y.had_prefix
            == x.had_prefix,
{
    lemma_rewritten_blob(data, x, e, o);
    lemma_orientation_codes(o, o.code() as int);
}

/// Rewriting the orientation twice is rewriting it once. The value must not
/// overlap the header or the table that it is found by.
pub proof fn law_in_place_is_idempotent(data: Seq<u8>, x: ExifView, o: Orientation)
    requires
        parse_blob(data) == Some(x),
        first_with(x.ifd0, TAG_ORIENTATION) matches Some(e) ==> (e.kind == TIFF_SHORT || e.kind
            == TIFF_LONG) ==> rewritable(tiff_of(data), x.order, e),
    ensures
        oriented_in_place(data, x, o) matches Some(b) ==> parse_blob(b) matches Some(y)
            && oriented_in_place(b, y, o) == Some(b),
{
    if let Some(b) = oriented_in_place(data, x, o) {
        let e = first_with(x.ifd0, TAG_ORIENTATION)->0;
        lemma_orientation_inside(data);
        lemma_rewritten_blob(data, x, e, o);
        let y = parse_blob(b)->0;
        let c = oriented_in_place(b, y, o)->0;
        assert(orientation_offset(y) == orientation_offset(x));
        assert(c =~= b);
    }
}

/// Keeping everything while setting the orientation settles: doing it again
/// gives the same bytes. The value must not overlap the header or the table
/// that it is found by.
pub proof fn law_reorient_is_idempotent(data: Seq<u8>, o: Orientation)
    requires
        parse_blob(data) matches Some(x) ==> (first_with(x.ifd0, TAG_ORIENTATION) matches Some(e)
            ==> (e.kind == TIFF_SHORT || e.kind == TIFF_LONG) ==> rewritable(
            tiff_of(data),
            x.order,
            e,
        )),
    ensures
        reoriented(data, o) matches Outcome::Rewritten(b) ==> reoriented(b, o)
            == Outcome::Unchanged || reoriented(b, o) == Outcome::Rewritten(b),
{
    if let Outcome::Rewritten(b) = reoriented(data, o) {
        law_in_place_is_idempotent(data, parse_blob(data)->0, o);
    }
}

} // verus!
