//! What a written tree looks like, byte by byte.
use super::codec::{u16_at, u32_at, ByteOrder};
use super::edit::{
    orientation_entry_view, orientation_of, orientation_put, orientation_reconciled, put_entry,
    text_entry,
};
use super::ext::lemma_slot_holds;
use super::layout::{
    block_len, ext_data, header_bytes, ifd_bytes, inline_field, out_of_line, padded, row, slot,
    sort_by_tag, sub_bytes, table, table_len,
};
use super::model::{first_index, EntryView, ExifView, TextEncoding};
use super::parsed::comes_first;
use super::reread::{
    found_at, lemma_found_byte, lemma_found_part, lemma_found_u16, lemma_found_u32, lemma_row_len,
    lemma_table_rows,
};
use super::roundtrip::{lemma_sections, tail_bytes};
use super::sorting::{lemma_sort_filter, lemma_sort_sorted};
use super::tree::lemma_first_index;
use super::write::as_size;
use crate::orientation::Orientation;
use vstd::prelude::*;

verus! {

broadcast use {super::codec::lemma_bytes16_len, super::codec::lemma_bytes32_len};

// ── Order ───────────────────────────────────────────────────────────────────

/// Entries are written in the order of their tags; those with one tag keep their
/// order, none is lost and none added.
pub proof fn law_entries_are_sorted(s: Seq<EntryView>, tag: u16, i: int, j: int)
    ensures
        0 <= i <= j < sort_by_tag(s).len() ==> sort_by_tag(s)[i].tag <= sort_by_tag(s)[j].tag,
        sort_by_tag(s).len() == s.len(),
        sort_by_tag(s).filter(|e: EntryView| e.tag == tag) == s.filter(
            |e: EntryView| e.tag == tag,
        ),
{
    let p = |e: EntryView| e.tag == tag;
    lemma_sort_sorted(s);
    super::layout::lemma_sort_len(s);
    lemma_sort_filter(s, p);
    let f = s.filter(p);
    assert forall|a: int, b: int| 0 <= a <= b < f.len() implies (#[trigger] f[a]).tag <= (
    #[trigger] f[b]).tag by {
        s.lemma_filter_pred(p, a);
        s.lemma_filter_pred(p, b);
    }
    super::sorting::lemma_sort_of_sorted(f);
}

// ── Directories ─────────────────────────────────────────────────────────────

/// A directory is its number of entries in two bytes, twelve bytes for each of
/// them, the next directory's offset in four, and the long values. An entry's
/// bytes are its tag, type and count, then its value, filled up with zeros, or
/// where a value of more than four bytes stands.
pub proof fn law_directory_is_written(
    items: Seq<EntryView>,
    off: int,
    next: u32,
    order: ByteOrder,
    k: int,
)
    requires
        0 <= k < items.len() <= 65535,
        0 <= off,
        out_of_line(items[k]) ==> off + 2 + 12 * items.len() + 4 + ext_data(items).len()
            <= u32::MAX,
    ensures
        ({
            let s = ifd_bytes(items, off + 2 + 12 * items.len() + 4, next, order);
            let e = items[k];
            let at = 2 + 12 * k;
            let value = u32_at(s, at + 8, order) - off;
            &&& s.len() >= 2 + 12 * items.len() + 4
            &&& u16_at(s, 0, order) == items.len()
            &&& u16_at(s, at, order) == e.tag
            &&& u16_at(s, at + 2, order) == e.kind
            &&& u32_at(s, at + 4, order) == e.count
            &&& e.value.len() <= 4 ==> forall|i: int|
                #![trigger e.value[i]]
                0 <= i < e.value.len() ==> s[at + 8 + i] == e.value[i]
            &&& e.value.len() < 4 ==> s[at + 11] == 0
            &&& e.value.len() < 3 ==> s[at + 10] == 0
            &&& e.value.len() < 2 ==> s[at + 9] == 0
            &&& e.value.len() < 1 ==> s[at + 8] == 0
            &&& e.value.len() > 4 ==> 2 + 12 * items.len() + 4 <= value && value + e.value.len()
                <= s.len() && s.subrange(value, value + e.value.len()) == e.value
            &&& u32_at(s, 2 + 12 * items.len() as int, order) == next
        }),
{
    let n = items.len();
    let base = off + 2 + 12 * n + 4;
    let s = ifd_bytes(items, base, next, order);
    let e = items[k];
    let at = 2 + 12 * k;
    let c = super::codec::bytes16(n as u16, order);
    let t = table(items, n, base, order);
    let x = super::codec::bytes32(next, order);
    let d = ext_data(items);
    lemma_table_rows(items, n, base, order, k);
    assert(s =~= c + t + x + d);
    assert(s.subrange(0, 2) =~= c);
    lemma_found_u16(s, 0, n as u16, order);
    assert(s.subrange((2 + 12 * n) as int, (2 + 12 * n + 4) as int) =~= x);
    lemma_found_u32(s, (2 + 12 * n) as int, next, order);
    let r = row(items, k, base, order);
    lemma_row_len(items, k, base, order);
    assert(s.subrange(at, at + 12) =~= t.subrange(12 * k, 12 * k + 12));
    assert(found_at(s, at, r));
    let tail = if out_of_line(e) {
        super::codec::bytes32((base + slot(items.take(k), e)) as u32, order)
    } else {
        inline_field(e.value)
    };
    lemma_found_part(s, at, r, 0, 2);
    assert(r.subrange(0, 2) =~= super::codec::bytes16(e.tag, order));
    lemma_found_u16(s, at, e.tag, order);
    lemma_found_part(s, at, r, 2, 4);
    assert(r.subrange(2, 4) =~= super::codec::bytes16(e.kind, order));
    lemma_found_u16(s, at + 2, e.kind, order);
    lemma_found_part(s, at, r, 4, 8);
    assert(r.subrange(4, 8) =~= super::codec::bytes32(e.count, order));
    lemma_found_u32(s, at + 4, e.count, order);
    lemma_found_part(s, at, r, 8, 12);
    assert(r.subrange(8, 12) =~= tail);
    if out_of_line(e) {
        lemma_slot_holds(items, k);
        let p = slot(items.take(k), e);
        lemma_found_u32(s, at + 8, (base + p) as u32, order);
        let v = 2 + 12 * n + 4 + p;
        assert(s.subrange(v as int, (v + e.value.len()) as int) =~= d.subrange(
            p as int,
            (p + e.value.len()) as int,
        ));
    } else {
        lemma_found_byte(s, at + 8, tail, 0);
        lemma_found_byte(s, at + 8, tail, 1);
        lemma_found_byte(s, at + 8, tail, 2);
        lemma_found_byte(s, at + 8, tail, 3);
        assert forall|i: int|
            #![trigger e.value[i]]
            0 <= i < e.value.len() implies s[at + 8 + i] == e.value[i] by {
            lemma_found_byte(s, at + 8, tail, i);
        }
    }
}

/// Long values stand at even places, behind each other.
pub proof fn law_long_values_are_aligned(items: Seq<EntryView>, e: EntryView)
    ensures
        ext_data(items).len() % 2 == 0,
        slot(items, e) % 2 == 0,
    decreases items.len(),
{
    if items.len() > 0 {
        let before = items.drop_last();
        law_long_values_are_aligned(before, items.last());
        law_long_values_are_aligned(before, e);
        assert(padded(items.last().value).len() % 2 == 0);
    }
}

/// A long value that two entries share, read from one place, is written once: both
/// entries point to it. Values of one length that are not shared stand apart.
pub proof fn law_shared_values_are_written_once(items: Seq<EntryView>, i: int, k: int)
    requires
        0 <= i < k < items.len(),
        items[i].value.len() > 4,
        items[i].value.len() == items[k].value.len(),
    ensures
        slot(items.take(i), items[i]) == slot(items.take(k), items[k]) <==> items[i].borrowed
            && items[k].borrowed && items[i].offset == items[k].offset && items[i].value
            == items[k].value,
{
    super::ext::lemma_slots_apart(items, i, k);
}

// ── Streams ─────────────────────────────────────────────────────────────────

/// A stream opens with `II*` and a zero byte, or `MM`, a zero byte and `*`, and the
/// first directory follows at byte eight. With the marker, `Exif` and two zero
/// bytes come before it.
pub proof fn law_header_is_written(v: ExifView)
    ensures
        ({
            let s = v.tiff_bytes();
            &&& s.len() >= 8
            &&& v.order == ByteOrder::Little ==> s[0] == 0x49 && s[1] == 0x49 && s[2] == 0x2A && s[3]
                == 0 && s[4] == 8 && s[5] == 0 && s[6] == 0 && s[7] == 0
            &&& v.order == ByteOrder::Big ==> s[0] == 0x4D && s[1] == 0x4D && s[2] == 0 && s[3]
                == 0x2A && s[4] == 0 && s[5] == 0 && s[6] == 0 && s[7] == 8
        }),
        !v.had_prefix ==> v.blob_bytes() == v.tiff_bytes(),
        v.had_prefix ==> v.blob_bytes() == seq![0x45u8, 0x78, 0x69, 0x66, 0, 0] + v.tiff_bytes(),
{
    lemma_sections(v);
    reveal(super::codec::bytes16);
    reveal(super::codec::bytes32);
    let s = v.tiff_bytes();
    let h = header_bytes(v.order);
    lemma_found_byte(s, 0, h, 0);
    lemma_found_byte(s, 0, h, 1);
    lemma_found_byte(s, 0, h, 2);
    lemma_found_byte(s, 0, h, 3);
    lemma_found_byte(s, 0, h, 4);
    lemma_found_byte(s, 0, h, 5);
    lemma_found_byte(s, 0, h, 6);
    lemma_found_byte(s, 0, h, 7);
    assert(Seq::<u8>::empty() + s =~= s);
}

/// The part of a stream that an absent directory takes is empty; that of another is
/// even and not.
proof fn lemma_part(sub: Option<Seq<EntryView>>, pointers: int) -> (n: int)
    requires
        0 <= pointers,
    ensures
        n == (match sub {
            Some(d) => block_len(d, pointers),
            None => 0,
        }),
        n % 2 == 0,
        n >= 0,
        sub is None ==> n == 0,
        sub is Some ==> n > 0,
{
    match sub {
        Some(d) => {
            lemma_block_even(d, pointers);
            block_len(d, pointers)
        },
        None => 0,
    }
}

/// Even lengths, one behind the other from eight on, end at even places.
proof fn lemma_even_places(a: int, b: int, c: int, d: int)
    requires
        a % 2 == 0 && b % 2 == 0 && c % 2 == 0 && d % 2 == 0,
    ensures
        (8 + a) % 2 == 0,
        (8 + a + b) % 2 == 0,
        (8 + a + b + c) % 2 == 0,
        (8 + a + b + c + d) % 2 == 0,
{
}

/// The places of a stream's parts, as sums of their lengths.
proof fn lemma_places(v: ExifView, a: int, b: int, c: int, d: int)
    requires
        a == block_len(v.ifd0, v.pointers0()),
        b == (match v.exif_ifd {
            Some(x) => block_len(x, 0),
            None => 0,
        }),
        c == (match v.gps_ifd {
            Some(x) => block_len(x, 0),
            None => 0,
        }),
        d == (match v.ifd1 {
            Some(x) => block_len(x, v.pointers1()),
            None => 0,
        }),
    ensures
        v.exif_off() == 8 + a,
        v.gps_off() == 8 + a + b,
        v.ifd1_off() == 8 + a + b + c,
        v.thumb_off() == 8 + a + b + c + d,
{
}

/// The directories of a stream stand one behind the other, first, Exif, GPS and
/// thumbnail directory, each at an even place; then the thumbnail, with which the
/// stream ends.
#[verifier::spinoff_prover]
pub proof fn law_stream_is_laid_out(v: ExifView)
    ensures
        v.tiff_bytes().len() == v.tiff_len(),
        8 < v.exif_off() <= v.gps_off() <= v.ifd1_off() <= v.thumb_off() <= v.tiff_len(),
        v.exif_off() % 2 == 0,
        v.gps_off() % 2 == 0,
        v.ifd1_off() % 2 == 0,
        v.thumb_off() % 2 == 0,
        v.exif_ifd is None ==> v.gps_off() == v.exif_off(),
        v.gps_ifd is None ==> v.ifd1_off() == v.gps_off(),
        v.ifd1 is None ==> v.thumb_off() == v.ifd1_off(),
        v.thumbnail is None ==> v.tiff_len() == v.thumb_off(),
{
    lemma_stream_len(v);
    let a = lemma_part(Some(v.ifd0), v.pointers0());
    let b = lemma_part(v.exif_ifd, 0);
    let c = lemma_part(v.gps_ifd, 0);
    let d = lemma_part(v.ifd1, v.pointers1());
    lemma_places(v, a, b, c, d);
    lemma_even_places(a, b, c, d);
}

/// A stream is as long as its parts.
proof fn lemma_stream_len(v: ExifView)
    ensures
        v.tiff_bytes().len() == v.tiff_len(),
{
    lemma_sections(v);
}

/// Between these places stand the Exif and GPS directories, sorted, and at the end
/// the thumbnail's bytes.
pub proof fn law_stream_holds_its_parts(v: ExifView)
    ensures
        v.thumbnail matches Some(t) ==> v.tiff_bytes().subrange(
            v.thumb_off(),
            v.tiff_bytes().len() as int,
        ) == t,
        v.exif_ifd matches Some(d) ==> v.tiff_bytes().subrange(v.exif_off(), v.gps_off())
            == ifd_bytes(
            sort_by_tag(d),
            v.exif_off() + 2 + 12 * d.len() + 4,
            0,
            v.order,
        ),
        v.gps_ifd matches Some(d) ==> v.tiff_bytes().subrange(v.gps_off(), v.ifd1_off())
            == ifd_bytes(sort_by_tag(d), v.gps_off() + 2 + 12 * d.len() + 4, 0, v.order),
{
    if let Some(t) = v.thumbnail {
        lemma_thumbnail_part(v, t);
    }
    if let Some(d) = v.exif_ifd {
        lemma_exif_part(v, d);
    }
    if let Some(d) = v.gps_ifd {
        lemma_gps_part(v, d);
    }
}

/// The thumbnail's bytes.
proof fn lemma_thumbnail_part(v: ExifView, t: Seq<u8>)
    requires
        v.thumbnail == Some(t),
    ensures
        v.tiff_bytes().subrange(v.thumb_off(), v.tiff_bytes().len() as int) == t,
{
    lemma_sections(v);
    assert(tail_bytes(v) == t);
    assert(v.thumb_off() + t.len() == v.tiff_len());
}

/// The Exif directory's bytes.
proof fn lemma_exif_part(v: ExifView, d: Seq<EntryView>)
    requires
        v.exif_ifd == Some(d),
    ensures
        v.tiff_bytes().subrange(v.exif_off(), v.gps_off()) == ifd_bytes(
            sort_by_tag(d),
            v.exif_off() + 2 + 12 * d.len() + 4,
            0,
            v.order,
        ),
{
    lemma_sections(v);
    lemma_sub_len(d, v.exif_off(), v.order);
    assert(v.gps_off() == v.exif_off() + block_len(d, 0));
}

/// The GPS directory's bytes.
proof fn lemma_gps_part(v: ExifView, d: Seq<EntryView>)
    requires
        v.gps_ifd == Some(d),
    ensures
        v.tiff_bytes().subrange(v.gps_off(), v.ifd1_off()) == ifd_bytes(
            sort_by_tag(d),
            v.gps_off() + 2 + 12 * d.len() + 4,
            0,
            v.order,
        ),
{
    lemma_sections(v);
    lemma_sub_len(d, v.gps_off(), v.order);
    assert(v.ifd1_off() == v.gps_off() + block_len(d, 0));
}

/// A directory takes an even number of bytes.
proof fn lemma_block_even(d: Seq<EntryView>, pointers: int)
    requires
        0 <= pointers,
    ensures
        block_len(d, pointers) % 2 == 0,
        block_len(d, pointers) > 0,
{
    let items = sort_by_tag(d);
    law_long_values_are_aligned(items, arbitrary());
}

/// A directory without pointers takes its block.
proof fn lemma_sub_len(d: Seq<EntryView>, off: int, order: ByteOrder)
    ensures
        sub_bytes(Some(d), off, order).len() == block_len(d, 0),
{
    super::layout::lemma_sort_len(d);
    super::reread::lemma_ifd_len(sort_by_tag(d), off + table_len(d.len() as int), 0, order);
}

// ── Authored entries ────────────────────────────────────────────────────────

/// Authored text is of type ASCII (2) or UTF-8 (129), as asked for: the text's
/// bytes and a zero byte, all of them counted.
pub proof fn law_authored_text(tag: u16, text: Seq<char>, encoding: TextEncoding)
    requires
        vstd::utf8::encode_utf8(text).len() < u32::MAX,
    ensures
        ({
            let e = text_entry(tag, text, encoding);
            let n = vstd::utf8::encode_utf8(text).len();
            &&& e.tag == tag
            &&& e.kind == 2 <==> encoding is Ascii
            &&& e.kind == 129 <==> encoding is Utf8
            &&& e.count == n + 1
            &&& e.value.len() == n + 1
            &&& e.value.take(n as int) == vstd::utf8::encode_utf8(text)
            &&& e.value[n as int] == 0
            &&& e.origin() is None
        }),
{
    let b = vstd::utf8::encode_utf8(text);
    assert(b.push(0).take(b.len() as int) =~= b);
}

/// An authored orientation is one SHORT (3) of tag 0x0112, with the numbers of the
/// EXIF tag in the byte order asked for.
pub proof fn law_authored_orientation(o: Orientation, order: ByteOrder)
    ensures
        ({
            let e = orientation_entry_view(o, order);
            &&& e.tag == 0x0112
            &&& e.kind == 3
            &&& e.count == 1
            &&& e.value.len() == 2
            &&& e.origin() is None
            &&& order == ByteOrder::Big ==> e.value[0] == 0 && e.value[1] == o.code()
            &&& order == ByteOrder::Little ==> e.value[0] == o.code() && e.value[1] == 0
            &&& orientation_of(seq![e], order) == Some(o)
        }),
{
    reveal(super::codec::bytes16);
    let e = orientation_entry_view(o, order);
    assert(1 <= o.code() <= 8);
    assert(o.code() as u16 / 256 == 0 && o.code() as u16 % 256 == o.code());
    super::codec::lemma_bytes16_reads_back(o.code() as u16, order);
    assert(seq![e][0] == e);
    assert(first_index(seq![e], 0x0112) == 0);
}

/// Putting an entry replaces the first with its tag, where it stands, or adds it
/// behind all others; nothing else changes.
pub proof fn law_put_in_place(d: Seq<EntryView>, e: EntryView, j: int, i: int)
    ensures
        comes_first(d, e.tag, j) ==> put_entry(d, e).len() == d.len() && put_entry(d, e)[j] == e && (
        0 <= i < d.len() && i != j ==> put_entry(d, e)[i] == d[i]),
        (forall|k: int| 0 <= k < d.len() ==> (#[trigger] d[k]).tag != e.tag) ==> put_entry(d, e)
            == d.push(e),
{
    lemma_first_index(d, e.tag);
}

/// A set orientation keeps the type SHORT or LONG of the entry that holds it,
/// which then counts one; any other type becomes a SHORT. Without an entry one is
/// added.
pub proof fn law_set_orientation_keeps_the_type(
    d: Seq<EntryView>,
    o: Orientation,
    order: ByteOrder,
    j: int,
)
    ensures
        comes_first(d, 0x0112, j) ==> ({
            let r = orientation_put(d, o, order);
            &&& r.len() == d.len()
            &&& r[j].tag == 0x0112
            &&& r[j].count == 1
            &&& d[j].kind == 4 ==> r[j].kind == 4 && r[j].value.len() == 4
            &&& d[j].kind != 4 ==> r[j].kind == 3 && r[j].value.len() == 2
            &&& r[j].origin() is None
        }),
        (forall|k: int| 0 <= k < d.len() ==> (#[trigger] d[k]).tag != 0x0112) ==> orientation_put(
            d,
            o,
            order,
        ) == d.push(orientation_entry_view(o, order)),
{
    lemma_first_index(d, 0x0112);
}

/// Reconciling an orientation changes only an entry that can hold it: a SHORT or
/// LONG of tag 0x0112 gets it, and without one nothing changes.
pub proof fn law_reconciled_orientation(
    d: Seq<EntryView>,
    o: Orientation,
    order: ByteOrder,
    j: int,
)
    ensures
        comes_first(d, 0x0112, j) && (d[j].kind == 3 || d[j].kind == 4) ==> orientation_reconciled(
            d,
            o,
            order,
        ) == orientation_put(d, o, order),
        comes_first(d, 0x0112, j) && d[j].kind != 3 && d[j].kind != 4 ==> orientation_reconciled(
            d,
            o,
            order,
        ) == d,
        (forall|k: int| 0 <= k < d.len() ==> (#[trigger] d[k]).tag != 0x0112)
            ==> orientation_reconciled(d, o, order) == d,
{
    lemma_first_index(d, 0x0112);
}

/// A length is given exactly if it is a machine size, and as it is.
pub proof fn law_lengths_are_machine_sizes(n: int)
    ensures
        as_size(n) is Some <==> 0 <= n <= usize::MAX,
        as_size(n) matches Some(m) ==> m == n,
{
}

} // verus!
