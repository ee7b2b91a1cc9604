//! A written blob whose orientation was rewritten in place is a written blob.
use super::canonical::lemma_framing;
use super::codec::{u16_at, u32_at};
use super::edit::{orientation_of, uint_field};
use super::ext::lemma_slot_holds;
use super::in_place::{law_in_place_reads_back, lemma_tree_first, rewritable, uint_width};
use super::layout::{ext_data, header_bytes, out_of_line, slot, sort_by_tag, sub_bytes, table_len};
use super::model::{
    exif_prefix, first_index, first_with, parse_blob, tiff_of, uint_value, EntryView, ExifView,
};
use super::provenance::{all_read_from, consistent, read_from};
use super::refill::{
    lemma_alike_ext_len, lemma_alike_slot, lemma_overwritten_back, lemma_overwritten_front,
    lemma_refilled_alike, lemma_refilled_ifd, lemma_refilled_sorted, place_of, refilled,
    single_sourced,
};
use super::reread::{placed, placed_all};
use super::retain::{oriented_in_place, overwritten};
use super::roundtrip::{
    all_pointers, dir_ok, lacks_tag, lemma_items_ok, lemma_ptrs0, lemma_section_lens,
    lemma_sections, lemma_sort_keeps_tag, tail_bytes,
};
use super::sections::{lemma_header, lemma_ifd0_reads_back};
use super::sorting::{lemma_ext_with_pointers, lemma_sort_sorted};
use super::tags::{TAG_EXIF_IFD, TAG_GPS_IFD, TAG_ORIENTATION, TIFF_LONG, TIFF_SHORT};
use super::tree::lemma_first_index;
use crate::orientation::Orientation;
use vstd::prelude::*;

verus! {

broadcast use {super::codec::lemma_bytes16_len, super::codec::lemma_bytes32_len};

/// The entries of a written first directory: those of the tree, and pointers.
pub open spec fn first_items(v: ExifView) -> Seq<EntryView> {
    sort_by_tag(v.ifd0 + v.ptrs0())
}

/// Where the value of an entry of a written first directory is: in its row, or
/// behind the table; in any case before the next directory.
proof fn lemma_written_place(v: ExifView, i: int)
    requires
        v.encodable(),
        0 <= i < first_items(v).len(),
        first_items(v)[i].kind == TIFF_SHORT || first_items(v)[i].kind == TIFF_LONG,
    ensures
        ({
            let e = placed(first_items(v), i, 8);
            let w = e.origin()->0;
            let n = uint_width(e.kind);
            &&& e.value.len() <= 4 ==> w == 18 + 12 * i
            &&& e.value.len() > 4 ==> w >= 8 + table_len(first_items(v).len() as int)
            &&& w + n <= v.exif_off()
            &&& first_items(v).len() == v.ifd0.len() + v.pointers0()
        }),
{
    let items = first_items(v);
    lemma_ptrs0(v);
    lemma_items_ok(v.ifd0, v.ptrs0());
    lemma_ext_with_pointers(v.ifd0, v.ptrs0());
    super::layout::lemma_sort_len(v.ifd0 + v.ptrs0());
    if out_of_line(items[i]) {
        lemma_slot_holds(items, i);
    }
}

/// Values read from one stream are single-sourced.
pub proof fn lemma_read_single(d: Seq<EntryView>, tiff: Seq<u8>)
    requires
        all_read_from(d, tiff),
    ensures
        single_sourced(d),
{
    assert forall|j: int, k: int|
        0 <= j < d.len() && 0 <= k < d.len() && out_of_line(#[trigger] d[j]) && d[j].origin() is Some
            && d[j].origin() == (#[trigger] d[k]).origin() && d[j].value.len()
            == d[k].value.len() implies d[j].value == d[k].value by {
        assert(read_from(d[j], tiff));
        assert(read_from(d[k], tiff));
    }
}

/// What is made of single-sourced entries is single-sourced.
proof fn lemma_single_among(d: Seq<EntryView>, r: Seq<EntryView>)
    requires
        single_sourced(d),
        forall|i: int| 0 <= i < r.len() ==> d.contains(#[trigger] r[i]),
    ensures
        single_sourced(r),
{
    assert forall|j: int, k: int|
        0 <= j < r.len() && 0 <= k < r.len() && out_of_line(#[trigger] r[j]) && r[j].origin() is Some
            && r[j].origin() == (#[trigger] r[k]).origin() && r[j].value.len()
            == r[k].value.len() implies r[j].value == r[k].value by {
        assert(d.contains(r[j]) && d.contains(r[k]));
        let a = d.index_of(r[j]);
        let b = d.index_of(r[k]);
        assert(d[a] == r[j] && d[b] == r[k]);
    }
}

impl ExifView {
    /// The tree with the first bytes of its first orientation value, and of the
    /// values stored with it, replaced by `f`.
    pub open spec fn reoriented(self, f: Seq<u8>) -> ExifView {
        ExifView {
            ifd0: refilled(self.ifd0, first_index(self.ifd0, TAG_ORIENTATION), f),
            ..self
        }
    }

    /// Whether the first orientation value has room for `f`.
    pub open spec fn has_room(self, f: Seq<u8>) -> bool {
        first_with(self.ifd0, TAG_ORIENTATION) matches Some(e) && f.len() <= e.value.len()
    }
}

/// Refilling keeps the layout.
proof fn lemma_same_layout(v: ExifView, f: Seq<u8>)
    requires
        single_sourced(v.ifd0),
        v.has_room(f),
    ensures
        ({
            let r = v.reoriented(f);
            &&& r.exif_off() == v.exif_off()
            &&& r.gps_off() == v.gps_off()
            &&& r.ifd1_off() == v.ifd1_off()
            &&& r.thumb_off() == v.thumb_off()
            &&& r.tiff_len() == v.tiff_len()
            &&& r.ptrs0() == v.ptrs0()
            &&& r.ptrs1() == v.ptrs1()
        }),
{
    let r = v.reoriented(f);
    let s = sort_by_tag(v.ifd0);
    lemma_first_index(v.ifd0, TAG_ORIENTATION);
    lemma_refilled_sorted(v.ifd0, TAG_ORIENTATION, f);
    lemma_sort_sorted(v.ifd0);
    lemma_single_among(v.ifd0, s);
    let i = first_index(s, TAG_ORIENTATION);
    lemma_refilled_alike(s, i, f);
    lemma_alike_ext_len(s, refilled(s, i, f));
    assert(ext_data(sort_by_tag(r.ifd0)).len() == ext_data(s).len());
}

/// Refilling an entry leaves the pointers behind it.
proof fn lemma_refilled_with_pointers(
    d: Seq<EntryView>,
    ptrs: Seq<EntryView>,
    tag: u16,
    f: Seq<u8>,
)
    requires
        first_index(d, tag) < d.len(),
        all_pointers(ptrs),
    ensures
        first_index(d + ptrs, tag) == first_index(d, tag),
        (d + ptrs)[first_index(d, tag)] == d[first_index(d, tag)],
        refilled(d, first_index(d, tag), f) + ptrs == refilled(d + ptrs, first_index(d, tag), f),
{
    let base = d + ptrs;
    let k = first_index(d, tag);
    lemma_first_index(d, tag);
    lemma_first_index(base, tag);
    let m = first_index(base, tag);
    assert(base[k] == d[k]);
    if m < k {
        assert(base[m] == d[m]);
    }
    let r = refilled(d, k, f) + ptrs;
    assert forall|j: int| 0 <= j < base.len() implies r[j] == #[trigger] refilled(base, k, f)[j] by {
        if j >= d.len() {
            assert(base[j] == ptrs[j - d.len()]);
            assert(!out_of_line(ptrs[j - d.len()]));
        } else {
            assert(base[j] == d[j]);
        }
    }
    assert(r =~= refilled(base, k, f));
}

/// Single-sourced entries still are with pointers behind them.
proof fn lemma_single_with_pointers(d: Seq<EntryView>, ptrs: Seq<EntryView>)
    requires
        single_sourced(d),
        all_pointers(ptrs),
    ensures
        single_sourced(d + ptrs),
{
    let base = d + ptrs;
    assert forall|a: int, b: int|
        0 <= a < base.len() && 0 <= b < base.len() && out_of_line(#[trigger] base[a])
            && base[a].origin() is Some && base[a].origin() == (#[trigger] base[b]).origin()
            && base[a].value.len() == base[b].value.len() implies base[a].value
        == base[b].value by {
        if a >= d.len() {
            assert(!out_of_line(ptrs[a - d.len()]));
        } else if b >= d.len() {
            assert(!out_of_line(ptrs[b - d.len()]));
        } else {
            assert(out_of_line(d[a]) && d[a].origin() == d[b].origin());
        }
    }
}

/// The written first directory of a refilled tree.
proof fn lemma_refilled_items(v: ExifView, f: Seq<u8>)
    requires
        single_sourced(v.ifd0),
        v.has_room(f),
    ensures
        ({
            let items = first_items(v);
            let i = first_index(items, TAG_ORIENTATION);
            &&& 0 <= i < items.len()
            &&& items[i] == first_with(v.ifd0, TAG_ORIENTATION)->0
            &&& single_sourced(items)
            &&& first_items(v.reoriented(f)) == refilled(items, i, f)
        }),
{
    let base = v.ifd0 + v.ptrs0();
    lemma_same_layout(v, f);
    lemma_ptrs0(v);
    lemma_refilled_with_pointers(v.ifd0, v.ptrs0(), TAG_ORIENTATION, f);
    lemma_refilled_sorted(base, TAG_ORIENTATION, f);
    assert(single_sourced(first_items(v))) by {
        lemma_single_with_pointers(v.ifd0, v.ptrs0());
        lemma_sort_sorted(base);
        lemma_single_among(base, first_items(v));
    }
}

/// Overwriting bytes of the second part of a concatenation.
proof fn lemma_overwritten_second(
    a: Seq<u8>,
    b: Seq<u8>,
    c: Seq<u8>,
    d: Seq<u8>,
    e: Seq<u8>,
    g: Seq<u8>,
    at: int,
    f: Seq<u8>,
)
    requires
        0 <= at,
        at + f.len() <= b.len(),
    ensures
        overwritten(a + b + c + d + e + g, a.len() + at, f) == a + overwritten(b, at, f) + c + d + e
            + g,
{
    let w = a.len() + at;
    lemma_overwritten_back(a, b, at, f);
    lemma_overwritten_front(a + b, c, w, f);
    lemma_overwritten_front(a + b + c, d, w, f);
    lemma_overwritten_front(a + b + c + d, e, w, f);
    lemma_overwritten_front(a + b + c + d + e, g, w, f);
}

/// A refilled tree is written as the tree with the value overwritten in its
/// place.
proof fn lemma_refilled_tiff(v: ExifView, f: Seq<u8>)
    requires
        single_sourced(v.ifd0),
        v.has_room(f),
    ensures
        ({
            let items = first_items(v);
            let w = 8 + place_of(items, first_index(items, TAG_ORIENTATION));
            &&& v.reoriented(f).tiff_bytes() == overwritten(v.tiff_bytes(), w, f)
            &&& w + f.len() <= v.tiff_bytes().len()
            &&& w >= 8
        }),
{
    let r = v.reoriented(f);
    lemma_same_layout(v, f);
    lemma_refilled_items(v, f);
    lemma_section_lens(v);
    lemma_sections(v);
    let items = first_items(v);
    let i = first_index(items, TAG_ORIENTATION);
    let next: u32 = if v.ifd1 is Some {
        v.ifd1_off() as u32
    } else {
        0
    };
    let base = 8 + super::layout::table_len(v.ifd0.len() + v.pointers0());
    lemma_refilled_ifd(items, i, f, base, next, v.order);
    let at = place_of(items, i);
    assert(r.ifd0_bytes() == overwritten(v.ifd0_bytes(), at, f));
    assert(r.ifd1_bytes() == v.ifd1_bytes());
    lemma_overwritten_second(
        header_bytes(v.order),
        v.ifd0_bytes(),
        sub_bytes(v.exif_ifd, v.exif_off(), v.order),
        sub_bytes(v.gps_ifd, v.gps_off(), v.order),
        v.ifd1_bytes(),
        tail_bytes(v),
        at,
        f,
    );
}

/// Refilling keeps where values start.
proof fn lemma_refilled_fits(v: ExifView, f: Seq<u8>)
    requires
        v.offsets_fit(),
        single_sourced(v.ifd0),
        v.has_room(f),
    ensures
        v.reoriented(f).offsets_fit(),
{
    let items = first_items(v);
    let r = first_items(v.reoriented(f));
    let base = 8 + table_len(v.ifd0.len() + v.pointers0());
    lemma_same_layout(v, f);
    lemma_refilled_items(v, f);
    let i = first_index(items, TAG_ORIENTATION);
    lemma_refilled_alike(items, i, f);
    assert forall|k: int| 0 <= k < r.len() && out_of_line(#[trigger] r[k]) implies base + slot(
        r.take(k),
        r[k],
    ) <= u32::MAX by {
        assert(items[k].value.len() == r[k].value.len());
        assert(out_of_line(items[k]));
        lemma_alike_slot(items, r, k);
    }
}

/// A refilled tree can be written.
proof fn lemma_refilled_encodable(v: ExifView, f: Seq<u8>)
    requires
        v.encodable(),
        single_sourced(v.ifd0),
        v.has_room(f),
        lacks_tag(v.ifd0, TAG_EXIF_IFD),
        lacks_tag(v.ifd0, TAG_GPS_IFD),
    ensures
        v.reoriented(f).encodable(),
{
    let r = v.reoriented(f);
    lemma_same_layout(v, f);
    lemma_refilled_fits(v, f);
    lemma_first_index(v.ifd0, TAG_ORIENTATION);
    let k = first_index(v.ifd0, TAG_ORIENTATION);
    lemma_refilled_alike(v.ifd0, k, f);
    assert(dir_ok(r.ifd0)) by {
        assert forall|j: int| 0 <= j < r.ifd0.len() implies consistent(#[trigger] r.ifd0[j]) by {
            assert(consistent(v.ifd0[j]));
            assert(v.ifd0[j].value.len() == r.ifd0[j].value.len());
        }
    }
    assert forall|j: int| 0 <= j < r.ifd0.len() implies (#[trigger] r.ifd0[j]).tag != TAG_EXIF_IFD
        && r.ifd0[j].tag != TAG_GPS_IFD by {
        assert(v.ifd0[j].tag == r.ifd0[j].tag);
    }
    lemma_first_index(r.ifd0, TAG_EXIF_IFD);
    lemma_first_index(r.ifd0, TAG_GPS_IFD);
}

/// The first orientation entry among those that are written is that of the
/// tree.
proof fn lemma_first_of_items(v: ExifView)
    ensures
        first_with(first_items(v), TAG_ORIENTATION) is Some ==> first_with(
            first_items(v),
            TAG_ORIENTATION,
        ) == first_with(v.ifd0, TAG_ORIENTATION),
{
    let base = v.ifd0 + v.ptrs0();
    lemma_sort_keeps_tag(base, TAG_ORIENTATION);
    lemma_first_index(base, TAG_ORIENTATION);
    let k = first_index(base, TAG_ORIENTATION);
    if k < base.len() {
        if k >= v.ifd0.len() {
            assert(base[k] == v.ptrs0()[k - v.ifd0.len()]);
        }
        assert(base[k] == v.ifd0[k]);
        lemma_first_index(v.ifd0, TAG_ORIENTATION);
        let n = first_index(v.ifd0, TAG_ORIENTATION);
        if n < k {
            assert(base[n] == v.ifd0[n]);
        }
    }
}

/// The first entry with a tag among those that were placed.
proof fn lemma_first_placed(items: Seq<EntryView>, tag: u16)
    ensures
        0 <= first_index(items, tag) <= items.len(),
        first_with(placed_all(items, 8), tag) == (if first_index(items, tag) < items.len() {
            Some(placed(items, first_index(items, tag), 8))
        } else {
            None
        }),
{
    let raw = placed_all(items, 8);
    lemma_first_index(items, tag);
    lemma_first_index(raw, tag);
    assert(forall|k: int| 0 <= k < raw.len() ==> (#[trigger] raw[k]).tag == items[k].tag);
    let i = first_index(items, tag);
    let m = first_index(raw, tag);
    if m < i {
        assert(raw[m].tag == items[m].tag);
    }
    if i < m {
        assert(raw[i].tag == items[i].tag);
    }
}

/// What a written blob has for its first orientation entry.
proof fn lemma_written_first(v: ExifView, x: ExifView)
    requires
        v.encodable(),
        parse_blob(v.blob_bytes()) == Some(x),
    ensures
        x.had_prefix == v.had_prefix,
        x.order == v.order,
        first_with(x.ifd0, TAG_ORIENTATION) == first_with(
            placed_all(first_items(v), 8),
            TAG_ORIENTATION,
        ),
{
    lemma_framing(v);
    lemma_header(v);
    lemma_ifd0_reads_back(v);
    let next: u32 = if v.ifd1 is Some {
        v.ifd1_off() as u32
    } else {
        0
    };
    lemma_tree_first(
        v.tiff_bytes(),
        v.had_prefix,
        v.order,
        placed_all(first_items(v), 8),
        next,
        TAG_ORIENTATION,
    );
}

/// Where the first orientation value of a written blob is found.
pub proof fn lemma_written_orientation(v: ExifView, x: ExifView)
    requires
        v.encodable(),
        parse_blob(v.blob_bytes()) == Some(x),
    ensures
        ({
            let items = first_items(v);
            let i = first_index(items, TAG_ORIENTATION);
            &&& x.had_prefix == v.had_prefix
            &&& x.order == v.order
            &&& 0 <= i <= items.len()
            &&& first_with(x.ifd0, TAG_ORIENTATION) == (if i < items.len() {
                Some(placed(items, i, 8))
            } else {
                None
            })
            &&& i < items.len() ==> first_with(v.ifd0, TAG_ORIENTATION) == Some(items[i])
        }),
{
    lemma_written_first(v, x);
    lemma_first_of_items(v);
    lemma_first_placed(first_items(v), TAG_ORIENTATION);
}

/// The orientation value of a written blob is apart from what the blob is found
/// by.
proof fn lemma_written_is_rewritable(v: ExifView, x: ExifView)
    requires
        v.encodable(),
        parse_blob(v.blob_bytes()) == Some(x),
    ensures
        first_with(x.ifd0, TAG_ORIENTATION) matches Some(e) ==> (e.kind == TIFF_SHORT || e.kind
            == TIFF_LONG) ==> rewritable(tiff_of(v.blob_bytes()), x.order, e),
{
    lemma_written_orientation(v, x);
    if let Some(e) = first_with(x.ifd0, TAG_ORIENTATION) {
        if e.kind == TIFF_SHORT || e.kind == TIFF_LONG {
            lemma_written_place(v, first_index(first_items(v), TAG_ORIENTATION));
            lemma_framing(v);
            assert(u32_at(v.tiff_bytes(), 4, v.order) == 8) by {
                lemma_header(v);
            }
            assert(u16_at(v.tiff_bytes(), 8, v.order) == first_items(v).len()) by {
                lemma_ifd0_reads_back(v);
            }
        }
    }
}

/// The orientation of a written blob can be rewritten in place, and the new one
/// reads back.
pub proof fn law_written_orientation_is_rewritable(
    v: ExifView,
    x: ExifView,
    e: EntryView,
    o: Orientation,
)
    requires
        v.encodable(),
        parse_blob(v.blob_bytes()) == Some(x),
        first_with(x.ifd0, TAG_ORIENTATION) == Some(e),
        uint_value(e, x.order) is Some,
    ensures
        oriented_in_place(v.blob_bytes(), x, o) matches Some(b) && parse_blob(b) matches Some(y)
            && orientation_of(y.ifd0, y.order) == Some(o),
{
    lemma_written_is_rewritable(v, x);
    law_in_place_reads_back(v.blob_bytes(), x, e, o);
}

/// Rewriting a readable orientation value of a written blob in place gives the
/// blob of the tree with that value.
pub proof fn lemma_rewritten_is_written(v: ExifView, x: ExifView, e: EntryView, o: Orientation)
    requires
        v.encodable(),
        single_sourced(v.ifd0),
        lacks_tag(v.ifd0, TAG_EXIF_IFD),
        lacks_tag(v.ifd0, TAG_GPS_IFD),
        parse_blob(v.blob_bytes()) == Some(x),
        first_with(x.ifd0, TAG_ORIENTATION) == Some(e),
        uint_value(e, x.order) is Some,
    ensures
        ({
            let f = uint_field(e.kind, o.code(), x.order)->0;
            &&& v.has_room(f)
            &&& v.reoriented(f).encodable()
            &&& v.reoriented(f).blob_len() == v.blob_len()
            &&& oriented_in_place(v.blob_bytes(), x, o) == Some(v.reoriented(f).blob_bytes())
        }),
{
    let f = uint_field(e.kind, o.code(), x.order)->0;
    lemma_written_orientation(v, x);
    let items = first_items(v);
    let i = first_index(items, TAG_ORIENTATION);
    assert(e.value == items[i].value);
    assert(v.has_room(f));
    lemma_refilled_encodable(v, f);
    lemma_same_layout(v, f);
    lemma_refilled_tiff(v, f);
    let w = 8 + place_of(items, i);
    assert(e.origin()->0 == w);
    if v.had_prefix {
        lemma_overwritten_back(exif_prefix(), v.tiff_bytes(), w, f);
    } else {
        assert(Seq::<u8>::empty() + v.tiff_bytes() =~= v.tiff_bytes());
        let r = v.reoriented(f);
        assert(Seq::<u8>::empty() + r.tiff_bytes() =~= r.tiff_bytes());
    }
}

} // verus!
