//! What a parsed tree holds of the stream, told from its bytes and tag numbers.
use super::codec::{u16_at, u32_at, ByteOrder};
use super::edit::{lemma_nul_index, nul_index, orientation_of, text_of};
use super::model::{
    first_index, parse_blob, pointer_in, thumbnail_in, without_pointer, without_tags, EntryView,
    ExifView,
};
use super::reading::{law_directory_is_read, law_row_is_read, rows_of, takes};
use super::tree::lemma_first_index;
use crate::orientation::Orientation;
use vstd::prelude::*;

verus! {

/// Whether `es[j]` is the first entry that carries `tag`.
pub open spec fn comes_first(es: Seq<EntryView>, tag: u16, j: int) -> bool {
    &&& 0 <= j < es.len()
    &&& es[j].tag == tag
    &&& forall|i: int| 0 <= i < j ==> (#[trigger] es[i]).tag != tag
}

/// The first entry with a tag is the one found.
proof fn lemma_comes_first(es: Seq<EntryView>, tag: u16, j: int)
    requires
        comes_first(es, tag, j),
    ensures
        first_index(es, tag) == j,
{
    lemma_first_index(es, tag);
}

/// Where no entry has the tag, none is found.
proof fn lemma_comes_nowhere(es: Seq<EntryView>, tag: u16)
    requires
        forall|i: int| 0 <= i < es.len() ==> (#[trigger] es[i]).tag != tag,
    ensures
        first_index(es, tag) == es.len(),
{
    lemma_first_index(es, tag);
}

/// Taking out an entry that a filter drops does not change what it leaves.
proof fn lemma_filter_of_remove(es: Seq<EntryView>, i: int, p: spec_fn(EntryView) -> bool)
    requires
        0 <= i < es.len(),
        !p(es[i]),
    ensures
        es.remove(i).filter(p) == es.filter(p),
{
    let a = es.take(i);
    let b = es.skip(i + 1);
    assert(es =~= a + (seq![es[i]] + b));
    assert(es.remove(i) =~= a + b);
    Seq::filter_distributes_over_add(a, b, p);
    Seq::filter_distributes_over_add(a, seq![es[i]] + b, p);
    Seq::filter_distributes_over_add(seq![es[i]], b, p);
    let one = seq![es[i]];
    assert(one.last() == es[i] && one.drop_last().len() == 0);
    assert(one.filter(p) =~= Seq::<EntryView>::empty()) by {
        reveal_with_fuel(Seq::filter, 2);
    }
    assert(one.filter(p) + b.filter(p) =~= b.filter(p));
}

/// A filter that is stricter than one before it leaves what it leaves alone.
proof fn lemma_filter_of_filter(
    es: Seq<EntryView>,
    q: spec_fn(EntryView) -> bool,
    p: spec_fn(EntryView) -> bool,
)
    requires
        forall|e: EntryView| #[trigger] p(e) ==> q(e),
    ensures
        es.filter(q).filter(p) == es.filter(p),
    decreases es.len(),
{
    reveal(Seq::filter);
    if es.len() > 0 {
        let l = es.drop_last();
        let e = es.last();
        lemma_filter_of_filter(l, q, p);
        if q(e) {
            assert(l.filter(q).push(e).drop_last() =~= l.filter(q));
        }
    }
}

/// Taking out a pointer does not change what a filter leaves that drops its tag.
proof fn lemma_filter_of_pointer(
    es: Seq<EntryView>,
    tag: u16,
    order: ByteOrder,
    p: spec_fn(EntryView) -> bool,
)
    requires
        forall|e: EntryView| #[trigger] p(e) ==> e.tag != tag,
    ensures
        without_pointer(es, tag, order).filter(p) == es.filter(p),
{
    lemma_first_index(es, tag);
    if pointer_in(es, tag, order) is Some {
        lemma_filter_of_remove(es, first_index(es, tag), p);
    }
}

/// Taking out two tags does not change what a filter leaves that drops them.
proof fn lemma_filter_of_tags(es: Seq<EntryView>, a: u16, b: u16, p: spec_fn(EntryView) -> bool)
    requires
        forall|e: EntryView| #[trigger] p(e) ==> e.tag != a && e.tag != b,
    ensures
        without_tags(es, a, b).filter(p) == es.filter(p),
{
    lemma_filter_of_filter(es, |e: EntryView| e.tag != a && e.tag != b, p);
}

// ── Framing ─────────────────────────────────────────────────────────────────

/// A stream opens with `II*` and a zero byte, or `MM`, a zero byte and `*`, then
/// the offset of a directory that is there. Nothing else parses.
pub proof fn law_header_is_read(tiff: Seq<u8>)
    requires
        tiff.len() == 0 || tiff[0] != 0x45,
    ensures
        parse_blob(tiff) is Some <==> ({
            &&& tiff.len() >= 8
            &&& ({
                ||| tiff[0] == 0x49 && tiff[1] == 0x49 && tiff[2] == 0x2A && tiff[3] == 0 && ({
                    let off = u32_at(tiff, 4, ByteOrder::Little) as int;
                    off + 2 <= tiff.len() && u16_at(tiff, off, ByteOrder::Little) <= 1000
                })
                ||| tiff[0] == 0x4D && tiff[1] == 0x4D && tiff[2] == 0 && tiff[3] == 0x2A && ({
                    let off = u32_at(tiff, 4, ByteOrder::Big) as int;
                    off + 2 <= tiff.len() && u16_at(tiff, off, ByteOrder::Big) <= 1000
                })
            })
        }),
        parse_blob(tiff) matches Some(x) ==> !x.had_prefix && (x.order == ByteOrder::Little
            <==> tiff[0] == 0x49),
{
    reveal(u16_at);
    if tiff.len() >= 6 {
        assert(tiff.subrange(0, 6)[0] == tiff[0]);
    }
    if tiff.len() >= 8 {
        law_directory_is_read(tiff, u32_at(tiff, 4, ByteOrder::Little) as int, ByteOrder::Little);
        law_directory_is_read(tiff, u32_at(tiff, 4, ByteOrder::Big) as int, ByteOrder::Big);
    }
}

/// The marker `Exif` and two zero bytes before a stream changes nothing but the
/// note that it was there.
pub proof fn law_marker_is_optional(tiff: Seq<u8>)
    requires
        tiff.len() == 0 || tiff[0] != 0x45,
    ensures
        ({
            let marked = seq![0x45u8, 0x78, 0x69, 0x66, 0, 0] + tiff;
            &&& parse_blob(marked) is Some <==> parse_blob(tiff) is Some
            &&& parse_blob(marked) matches Some(x) ==> x == (ExifView {
                had_prefix: true,
                ..parse_blob(tiff)->0
            })
        }),
{
    let marker = seq![0x45u8, 0x78, 0x69, 0x66, 0, 0];
    let marked = marker + tiff;
    assert(marked.subrange(0, 6) =~= marker);
    assert(marked.skip(6) =~= tiff);
    if tiff.len() >= 6 {
        assert(tiff.subrange(0, 6)[0] == tiff[0]);
    }
}

/// Only the whole marker is one: what opens with its first letter parses only if
/// `Exif` and two zero bytes come first, and then as what follows them does.
pub proof fn law_marker_is_exact(data: Seq<u8>)
    requires
        data.len() > 0,
        data[0] == 0x45,
        parse_blob(data) is Some,
    ensures
        data.len() >= 14,
        data[1] == 0x78 && data[2] == 0x69 && data[3] == 0x66 && data[4] == 0 && data[5] == 0,
        data[6] == data[7],
        data[6] == 0x49 || data[6] == 0x4D,
{
    if data.len() >= 6 {
        let s = data.subrange(0, 6);
        let m = super::model::exif_prefix();
        assert(s[0] == data[0] && s[1] == data[1] && s[2] == data[2] && s[3] == data[3] && s[4]
            == data[4] && s[5] == data[5]);
        assert(m[0] == 0x45 && m[1] == 0x78 && m[2] == 0x69 && m[3] == 0x66 && m[4] == 0 && m[5]
            == 0);
        if super::model::has_prefix(data) {
            assert(data.skip(6)[0] == data[6] && data.skip(6)[1] == data[7]);
        }
    }
}

// ── Directories ─────────────────────────────────────────────────────────────

/// The first directory of a tree is the one that the header points to: but for
/// the pointers to the Exif (0x8769) and GPS (0x8825) directories, all of its
/// entries are there, unchanged and in order, and there are no others.
pub proof fn law_first_directory_is_kept(tiff: Seq<u8>, x: ExifView)
    requires
        tiff[0] != 0x45,
        parse_blob(tiff) == Some(x),
    ensures
        ({
            let plain = |e: EntryView| e.tag != 0x8769 && e.tag != 0x8825;
            x.ifd0.filter(plain) == rows_of(
                tiff,
                u32_at(tiff, 4, x.order) as int,
                x.order,
            ).filter(plain)
        }),
        x.exif_ifd is Some ==> forall|i: int|
            0 <= i < x.ifd0.len() ==> (#[trigger] x.ifd0[i]).tag != 0x8769,
        x.gps_ifd is Some ==> forall|i: int|
            0 <= i < x.ifd0.len() ==> (#[trigger] x.ifd0[i]).tag != 0x8825,
{
    assert(tiff.len() >= 6 ==> tiff.subrange(0, 6)[0] == tiff[0]);
    let plain = |e: EntryView| e.tag != 0x8769 && e.tag != 0x8825;
    let order = x.order;
    let raw = rows_of(tiff, u32_at(tiff, 4, order) as int, order);
    let a = without_pointer(raw, 0x8769, order);
    let b = without_pointer(a, 0x8825, order);
    lemma_filter_of_pointer(raw, 0x8769, order, plain);
    lemma_filter_of_pointer(a, 0x8825, order, plain);
    lemma_filter_of_tags(b, 0x8769, 0x8769, plain);
    let c = if x.exif_ifd is Some { without_tags(b, 0x8769, 0x8769) } else { b };
    lemma_filter_of_tags(c, 0x8825, 0x8825, plain);
    if x.exif_ifd is Some {
        let p = |e: EntryView| e.tag != 0x8769 && e.tag != 0x8769;
        assert forall|i: int| 0 <= i < c.len() implies (#[trigger] c[i]).tag != 0x8769 by {
            b.lemma_filter_pred(p, i);
        }
    }
    if x.gps_ifd is Some {
        let p = |e: EntryView| e.tag != 0x8825 && e.tag != 0x8825;
        assert forall|i: int| 0 <= i < x.ifd0.len() implies (#[trigger] x.ifd0[i]).tag != 0x8825 by {
            c.lemma_filter_pred(p, i);
        }
        assert forall|i: int| 0 <= i < x.ifd0.len() && x.exif_ifd is Some implies (
        #[trigger] x.ifd0[i]).tag != 0x8769 by {
            assert(c.filter(p).contains(x.ifd0[i]));
            c.lemma_filter_contains_rev(p, x.ifd0[i]);
        }
    }
}

/// Every row of the first directory of a stream that is there, has a field type of
/// the standard and a value inside the stream is in the tree, with its tag, type,
/// count and bytes, unless it points to the Exif or GPS directory.
pub proof fn law_field_is_parsed(tiff: Seq<u8>, x: ExifView, off: int, k: int, size: int)
    requires
        tiff[0] != 0x45,
        parse_blob(tiff) == Some(x),
        off == u32_at(tiff, 4, x.order),
        0 <= k < u16_at(tiff, off, x.order),
        off + 2 + 12 * k + 12 <= tiff.len(),
        takes(u16_at(tiff, off + 2 + 12 * k + 2, x.order), size),
        u32_at(tiff, off + 2 + 12 * k + 4, x.order) * size <= 4 || u32_at(
            tiff,
            off + 2 + 12 * k + 8,
            x.order,
        ) + u32_at(tiff, off + 2 + 12 * k + 4, x.order) * size <= tiff.len(),
        u16_at(tiff, off + 2 + 12 * k, x.order) != 0x8769,
        u16_at(tiff, off + 2 + 12 * k, x.order) != 0x8825,
    ensures
        exists|i: int|
            0 <= i < x.ifd0.len() && ({
                let e = #[trigger] x.ifd0[i];
                let row = off + 2 + 12 * k;
                let len = u32_at(tiff, row + 4, x.order) * size;
                let at = if len <= 4 { row + 8 } else { u32_at(tiff, row + 8, x.order) as int };
                &&& e.tag == u16_at(tiff, row, x.order)
                &&& e.kind == u16_at(tiff, row + 2, x.order)
                &&& e.count == u32_at(tiff, row + 4, x.order)
                &&& e.value == tiff.subrange(at, at + len)
                &&& e.value.len() == e.count * size
            }),
{
    let order = x.order;
    assert(tiff.len() >= 6 ==> tiff.subrange(0, 6)[0] == tiff[0]);
    law_directory_is_read(tiff, off, order);
    law_row_is_read(tiff, off, order, k, size);
    law_first_directory_is_kept(tiff, x);
    let raw = rows_of(tiff, off, order);
    let row = off + 2 + 12 * k;
    let len = u32_at(tiff, row + 4, order) * size;
    let at = if len <= 4 { row + 8 } else { u32_at(tiff, row + 8, order) as int };
    let j = choose|j: int|
        0 <= j < raw.len() && ({
            let e = #[trigger] raw[j];
            &&& e.tag == u16_at(tiff, row, order)
            &&& e.kind == u16_at(tiff, row + 2, order)
            &&& e.count == u32_at(tiff, row + 4, order)
            &&& e.value == tiff.subrange(at, at + len)
            &&& e.value.len() == e.count * size
            &&& e.origin() == Some(at as nat)
        });
    let plain = |e: EntryView| e.tag != 0x8769 && e.tag != 0x8825;
    raw.lemma_filter_contains(plain, j);
    x.ifd0.lemma_filter_contains_rev(plain, raw[j]);
    let i = choose|i: int| 0 <= i < x.ifd0.len() && x.ifd0[i] == raw[j];
    assert(x.ifd0[i] == raw[j]);
}

/// The Exif directory is the one that the first 0x8769 entry points to, if it is
/// there; its entries are all kept, in order, but for the interoperability
/// pointer (0xA005).
pub proof fn law_exif_directory_is_kept(tiff: Seq<u8>, x: ExifView, j: int)
    requires
        tiff[0] != 0x45,
        parse_blob(tiff) == Some(x),
        comes_first(rows_of(tiff, u32_at(tiff, 4, x.order) as int, x.order), 0x8769, j),
        rows_of(tiff, u32_at(tiff, 4, x.order) as int, x.order)[j].value.len() >= 4,
    ensures
        ({
            let raw = rows_of(tiff, u32_at(tiff, 4, x.order) as int, x.order);
            let at = u32_at(raw[j].value, 0, x.order) as int;
            let plain = |e: EntryView| e.tag != 0xA005;
            &&& x.exif_ifd is Some <==> at + 2 <= tiff.len() && u16_at(tiff, at, x.order) <= 1000
            &&& x.exif_ifd matches Some(d) ==> d.filter(plain) == rows_of(
                tiff,
                at,
                x.order,
            ).filter(plain)
        }),
{
    assert(tiff.len() >= 6 ==> tiff.subrange(0, 6)[0] == tiff[0]);
    let order = x.order;
    let raw = rows_of(tiff, u32_at(tiff, 4, order) as int, order);
    let at = u32_at(raw[j].value, 0, order) as int;
    lemma_comes_first(raw, 0x8769, j);
    law_directory_is_read(tiff, at, order);
    lemma_filter_of_pointer(
        rows_of(tiff, at, order),
        0xA005,
        order,
        |e: EntryView| e.tag != 0xA005,
    );
}

/// Of the Exif directory the first interoperability pointer (0xA005) is taken out,
/// if it has its four bytes, and nothing else.
pub proof fn law_interop_pointer_is_taken_out(tiff: Seq<u8>, x: ExifView, j: int, i: int)
    requires
        tiff[0] != 0x45,
        parse_blob(tiff) == Some(x),
        comes_first(rows_of(tiff, u32_at(tiff, 4, x.order) as int, x.order), 0x8769, j),
        rows_of(tiff, u32_at(tiff, 4, x.order) as int, x.order)[j].value.len() >= 4,
        x.exif_ifd is Some,
    ensures
        ({
            let raw = rows_of(tiff, u32_at(tiff, 4, x.order) as int, x.order);
            let es = rows_of(tiff, u32_at(raw[j].value, 0, x.order) as int, x.order);
            &&& comes_first(es, 0xA005, i) && es[i].value.len() >= 4 ==> x.exif_ifd == Some(
                es.remove(i),
            )
            &&& comes_first(es, 0xA005, i) && es[i].value.len() < 4 ==> x.exif_ifd == Some(es)
            &&& (forall|k: int| 0 <= k < es.len() ==> (#[trigger] es[k]).tag != 0xA005)
                ==> x.exif_ifd == Some(es)
        }),
{
    assert(tiff.len() >= 6 ==> tiff.subrange(0, 6)[0] == tiff[0]);
    let order = x.order;
    let raw = rows_of(tiff, u32_at(tiff, 4, order) as int, order);
    let es = rows_of(tiff, u32_at(raw[j].value, 0, order) as int, order);
    lemma_comes_first(raw, 0x8769, j);
    lemma_first_index(es, 0xA005);
}

/// What a filter leaves when the first entry that it keeps is taken out.
proof fn lemma_filter_of_first(es: Seq<EntryView>, j: int, p: spec_fn(EntryView) -> bool)
    requires
        0 <= j < es.len(),
        p(es[j]),
        forall|i: int| 0 <= i < j ==> !p(#[trigger] es[i]),
    ensures
        es.filter(p).len() > 0,
        es.remove(j).filter(p) == es.filter(p).drop_first(),
{
    let a = es.take(j);
    let b = es.skip(j + 1);
    let one = seq![es[j]];
    assert(es =~= a + (one + b));
    assert(es.remove(j) =~= a + b);
    Seq::filter_distributes_over_add(a, b, p);
    Seq::filter_distributes_over_add(a, one + b, p);
    Seq::filter_distributes_over_add(one, b, p);
    assert(a.filter(p).len() == 0) by {
        super::sorting::lemma_filter_none(a, p);
    }
    assert(one.last() == es[j] && one.drop_last().len() == 0);
    assert(one.filter(p) =~= one) by {
        reveal_with_fuel(Seq::filter, 2);
    }
    assert(es.filter(p) =~= one + b.filter(p));
    assert(es.filter(p).drop_first() =~= b.filter(p));
    assert(es.remove(j).filter(p) =~= b.filter(p));
}

/// A pointer to an Exif directory that is not there is taken out all the same, if
/// it has its four bytes: the first one, and no other.
pub proof fn law_dangling_pointer_is_taken_out(tiff: Seq<u8>, x: ExifView, j: int)
    requires
        tiff[0] != 0x45,
        parse_blob(tiff) == Some(x),
        comes_first(rows_of(tiff, u32_at(tiff, 4, x.order) as int, x.order), 0x8769, j),
        x.exif_ifd is None,
    ensures
        ({
            let raw = rows_of(tiff, u32_at(tiff, 4, x.order) as int, x.order);
            let pointer = |e: EntryView| e.tag == 0x8769;
            &&& raw[j].value.len() >= 4 ==> x.ifd0.filter(pointer) == raw.filter(
                pointer,
            ).drop_first()
            &&& raw[j].value.len() < 4 ==> x.ifd0.filter(pointer) == raw.filter(pointer)
        }),
{
    assert(tiff.len() >= 6 ==> tiff.subrange(0, 6)[0] == tiff[0]);
    let order = x.order;
    let raw = rows_of(tiff, u32_at(tiff, 4, order) as int, order);
    let pointer = |e: EntryView| e.tag == 0x8769;
    lemma_comes_first(raw, 0x8769, j);
    let a = without_pointer(raw, 0x8769, order);
    lemma_filter_of_first(raw, j, pointer);
    lemma_filter_of_pointer(a, 0x8825, order, pointer);
    let b = without_pointer(a, 0x8825, order);
    lemma_filter_of_tags(b, 0x8825, 0x8825, pointer);
}

/// The GPS directory is the one that the first 0x8825 entry points to, entry by
/// entry, if it is there.
pub proof fn law_gps_directory_is_kept(tiff: Seq<u8>, x: ExifView, j: int)
    requires
        tiff[0] != 0x45,
        parse_blob(tiff) == Some(x),
        comes_first(rows_of(tiff, u32_at(tiff, 4, x.order) as int, x.order), 0x8825, j),
        rows_of(tiff, u32_at(tiff, 4, x.order) as int, x.order)[j].value.len() >= 4,
    ensures
        ({
            let raw = rows_of(tiff, u32_at(tiff, 4, x.order) as int, x.order);
            let at = u32_at(raw[j].value, 0, x.order) as int;
            &&& x.gps_ifd is Some <==> at + 2 <= tiff.len() && u16_at(tiff, at, x.order) <= 1000
            &&& x.gps_ifd matches Some(d) ==> d == rows_of(tiff, at, x.order)
        }),
{
    assert(tiff.len() >= 6 ==> tiff.subrange(0, 6)[0] == tiff[0]);
    let order = x.order;
    let raw = rows_of(tiff, u32_at(tiff, 4, order) as int, order);
    let at = u32_at(raw[j].value, 0, order) as int;
    let a = without_pointer(raw, 0x8769, order);
    let k = first_index(raw, 0x8769);
    lemma_first_index(raw, 0x8769);
    if pointer_in(raw, 0x8769, order) is Some {
        assert(a == raw.remove(k));
        let m = if k < j { j - 1 } else { j };
        assert(a[m] == raw[j]);
        assert forall|i: int| 0 <= i < m implies (#[trigger] a[i]).tag != 0x8825 by {
            assert(a[i] == if i < k { raw[i] } else { raw[i + 1] });
        }
        lemma_comes_first(a, 0x8825, m);
    } else {
        lemma_comes_first(a, 0x8825, j);
    }
    law_directory_is_read(tiff, at, order);
}

/// Without a pointer to it, of at least four bytes, there is no Exif or GPS
/// directory.
pub proof fn law_no_pointer_no_directory(tiff: Seq<u8>, x: ExifView)
    requires
        tiff[0] != 0x45,
        parse_blob(tiff) == Some(x),
    ensures
        ({
            let raw = rows_of(tiff, u32_at(tiff, 4, x.order) as int, x.order);
            &&& x.exif_ifd is Some ==> exists|j: int|
                #[trigger] comes_first(raw, 0x8769, j) && raw[j].value.len() >= 4
            &&& x.gps_ifd is Some ==> exists|j: int|
                #[trigger] comes_first(raw, 0x8825, j) && raw[j].value.len() >= 4
        }),
{
    assert(tiff.len() >= 6 ==> tiff.subrange(0, 6)[0] == tiff[0]);
    let order = x.order;
    let raw = rows_of(tiff, u32_at(tiff, 4, order) as int, order);
    let a = without_pointer(raw, 0x8769, order);
    let k = first_index(raw, 0x8769);
    let m = first_index(a, 0x8825);
    lemma_first_index(raw, 0x8769);
    lemma_first_index(a, 0x8825);
    if x.exif_ifd is Some {
        assert(comes_first(raw, 0x8769, k));
    }
    if x.gps_ifd is Some {
        let taken = pointer_in(raw, 0x8769, order) is Some;
        let j = if taken && m >= k { m + 1 } else { m };
        assert(raw[j] == a[m]);
        assert forall|i: int| 0 <= i < j implies (#[trigger] raw[i]).tag != 0x8825 by {
            if taken && i > k {
                assert(raw[i] == a[i - 1]);
            } else if taken && i < k {
                assert(raw[i] == a[i]);
            } else if !taken {
                assert(raw[i] == a[i]);
            }
        }
        assert(comes_first(raw, 0x8825, j));
    }
}

/// The thumbnail directory is the one whose offset follows the first directory;
/// its entries are all kept, in order, but for the thumbnail's place (0x0201) and
/// length (0x0202).
pub proof fn law_thumbnail_directory_is_kept(tiff: Seq<u8>, x: ExifView)
    requires
        tiff[0] != 0x45,
        parse_blob(tiff) == Some(x),
    ensures
        ({
            let off = u32_at(tiff, 4, x.order) as int;
            let end = off + 2 + 12 * u16_at(tiff, off, x.order);
            let at = u32_at(tiff, end, x.order) as int;
            let plain = |e: EntryView| e.tag != 0x0201 && e.tag != 0x0202;
            &&& x.ifd1 is Some <==> end + 4 <= tiff.len() && at != 0 && at + 2 <= tiff.len()
                && u16_at(tiff, at, x.order) <= 1000
            &&& x.ifd1 matches Some(d) ==> d.filter(plain) == rows_of(
                tiff,
                at,
                x.order,
            ).filter(plain)
            &&& x.ifd1 is None ==> x.thumbnail is None
        }),
{
    assert(tiff.len() >= 6 ==> tiff.subrange(0, 6)[0] == tiff[0]);
    let order = x.order;
    let off = u32_at(tiff, 4, order) as int;
    let end = off + 2 + 12 * u16_at(tiff, off, order);
    let at = u32_at(tiff, end, order) as int;
    law_directory_is_read(tiff, off, order);
    law_directory_is_read(tiff, at, order);
    lemma_filter_of_tags(
        rows_of(tiff, at, order),
        0x0201,
        0x0202,
        |e: EntryView| e.tag != 0x0201 && e.tag != 0x0202,
    );
}

/// The number that an entry holds: a SHORT (3) in two bytes or a LONG (4) in four;
/// no other type holds one.
pub open spec fn number_in(e: EntryView, order: ByteOrder) -> Option<int> {
    if e.kind == 3 && e.value.len() >= 2 {
        Some(u16_at(e.value, 0, order) as int)
    } else if e.kind == 4 && e.value.len() >= 4 {
        Some(u32_at(e.value, 0, order) as int)
    } else {
        None
    }
}

/// A thumbnail is captured byte for byte exactly if its directory's first 0x0201
/// and 0x0202 entries hold numbers, its place and its length, and it lies inside
/// the stream.
pub proof fn law_thumbnail_is_read(tiff: Seq<u8>, es: Seq<EntryView>, order: ByteOrder, i: int, j: int)
    requires
        comes_first(es, 0x0201, i),
        comes_first(es, 0x0202, j),
    ensures
        match (number_in(es[i], order), number_in(es[j], order)) {
            (Some(at), Some(len)) => {
                &&& thumbnail_in(tiff, es, order) is Some <==> at + len <= tiff.len()
                &&& thumbnail_in(tiff, es, order) matches Some(t) ==> t == tiff.subrange(
                    at,
                    at + len,
                )
            },
            _ => thumbnail_in(tiff, es, order) is None,
        },
{
    lemma_comes_first(es, 0x0201, i);
    lemma_comes_first(es, 0x0202, j);
}

/// Without an entry for its place or its length there is no thumbnail.
pub proof fn law_unlocated_thumbnail(tiff: Seq<u8>, es: Seq<EntryView>, order: ByteOrder)
    requires
        (forall|i: int| 0 <= i < es.len() ==> (#[trigger] es[i]).tag != 0x0201) || (forall|i: int|
            0 <= i < es.len() ==> (#[trigger] es[i]).tag != 0x0202),
    ensures
        thumbnail_in(tiff, es, order) is None,
{
    lemma_first_index(es, 0x0201);
    lemma_first_index(es, 0x0202);
}

/// The thumbnail of a tree is the one that its thumbnail directory locates in the
/// stream; where it is captured, the entries that locate it are taken out.
pub proof fn law_thumbnail_of_a_tree(tiff: Seq<u8>, x: ExifView)
    requires
        tiff[0] != 0x45,
        parse_blob(tiff) == Some(x),
        x.ifd1 is Some,
    ensures
        ({
            let off = u32_at(tiff, 4, x.order) as int;
            let at = u32_at(tiff, off + 2 + 12 * u16_at(tiff, off, x.order), x.order) as int;
            &&& x.thumbnail == thumbnail_in(tiff, rows_of(tiff, at, x.order), x.order)
            &&& x.thumbnail is None ==> x.ifd1 == Some(rows_of(tiff, at, x.order))
        }),
        x.thumbnail is Some ==> (x.ifd1 matches Some(d) && forall|i: int|
            0 <= i < d.len() ==> (#[trigger] d[i]).tag != 0x0201 && d[i].tag != 0x0202),
{
    assert(tiff.len() >= 6 ==> tiff.subrange(0, 6)[0] == tiff[0]);
    let off = u32_at(tiff, 4, x.order) as int;
    law_directory_is_read(tiff, off, x.order);
    let at = u32_at(tiff, off + 2 + 12 * u16_at(tiff, off, x.order), x.order) as int;
    let es = rows_of(tiff, at, x.order);
    if x.thumbnail is Some {
        let d = x.ifd1->0;
        let p = |e: EntryView| e.tag != 0x0201 && e.tag != 0x0202;
        assert(d == es.filter(p));
        assert forall|i: int| 0 <= i < d.len() implies (#[trigger] d[i]).tag != 0x0201 && d[i].tag
            != 0x0202 by {
            es.lemma_filter_pred(p, i);
        }
    }
}

// ── Fields ──────────────────────────────────────────────────────────────────

/// The orientation is that of the first 0x0112 entry, which holds it as a SHORT
/// (3) or a LONG (4) from 1 to 8; any other number or type is none.
pub proof fn law_orientation_is_read(es: Seq<EntryView>, order: ByteOrder, j: int)
    requires
        comes_first(es, 0x0112, j),
    ensures
        ({
            let n = match number_in(es[j], order) {
                Some(n) => n,
                None => 0,
            };
            &&& n == 1 <==> orientation_of(es, order) == Some(Orientation::Identity)
            &&& n == 2 <==> orientation_of(es, order) == Some(Orientation::FlipH)
            &&& n == 3 <==> orientation_of(es, order) == Some(Orientation::Rotate180)
            &&& n == 4 <==> orientation_of(es, order) == Some(Orientation::FlipV)
            &&& n == 5 <==> orientation_of(es, order) == Some(Orientation::Transpose)
            &&& n == 6 <==> orientation_of(es, order) == Some(Orientation::Rotate90)
            &&& n == 7 <==> orientation_of(es, order) == Some(Orientation::Transverse)
            &&& n == 8 <==> orientation_of(es, order) == Some(Orientation::Rotate270)
            &&& n == 0 || n > 8 <==> orientation_of(es, order) is None
        }),
{
    lemma_comes_first(es, 0x0112, j);
}

/// Without an entry for it, a tree has no orientation and no such text.
pub proof fn law_absent_fields(es: Seq<EntryView>, order: ByteOrder, tag: u16)
    requires
        forall|i: int| 0 <= i < es.len() ==> (#[trigger] es[i]).tag != tag,
    ensures
        tag == 0x0112 ==> orientation_of(es, order) is None,
        text_of(es, tag) is None,
{
    lemma_comes_nowhere(es, tag);
}

/// Text is that of the first entry with the tag, which holds it as ASCII (2) or
/// UTF-8 (129): the bytes before the first NUL, or all of them; empty text and
/// other types are none.
pub proof fn law_text_is_read(es: Seq<EntryView>, tag: u16, j: int, n: int)
    requires
        comes_first(es, tag, j),
        0 <= n <= es[j].value.len(),
        forall|i: int| 0 <= i < n ==> (#[trigger] es[j].value[i]) != 0,
        n < es[j].value.len() ==> es[j].value[n] == 0,
    ensures
        (es[j].kind == 2 || es[j].kind == 129) && n > 0 ==> text_of(es, tag) == Some(
            es[j].value.take(n),
        ),
        !((es[j].kind == 2 || es[j].kind == 129) && n > 0) ==> text_of(es, tag) is None,
{
    lemma_comes_first(es, tag, j);
    let v = es[j].value;
    lemma_nul_index(v);
    let m = nul_index(v);
    assert(m < n ==> v[m] != 0);
    assert(n < m ==> v[n] != 0);
}

} // verus!
