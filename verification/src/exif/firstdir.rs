//! Taking the pointers out of a first directory that was read back.
use super::codec::ByteOrder;
use super::ext::{lemma_similar_same, similar};
use super::layout::{pointer_entry, sort_by_tag};
use super::model::{pointer_in, without_pointer, without_tags, EntryView};
use super::parts::{
    first_pointers, left_of, lemma_pointer_among, lemma_same_lacks, lemma_sort_lacks,
};
use super::roundtrip::{is_tag, lemma_pointer_step, lemma_without_absent, pointer_settled};
use super::sorting::{lemma_filter_all, lemma_filter_none};
use super::tags::{TAG_EXIF_IFD, TAG_GPS_IFD};
use vstd::prelude::*;

verus! {

broadcast use {super::codec::lemma_bytes16_len, super::codec::lemma_bytes32_len};

// ── Reading the parts back ──────────────────────────────────────────────────

/// The pointers of each tag, and the pointers without the Exif one.
pub proof fn lemma_first_pointers(x: bool, xo: u32, g: bool, go: u32, order: ByteOrder)
    ensures
        first_pointers(x, xo, g, go, order).filter(is_tag(TAG_EXIF_IFD)) == (if x {
            seq![pointer_entry(TAG_EXIF_IFD, xo, order)]
        } else {
            Seq::empty()
        }),
        first_pointers(x, xo, g, go, order).filter(is_tag(TAG_GPS_IFD)) == (if g {
            seq![pointer_entry(TAG_GPS_IFD, go, order)]
        } else {
            Seq::empty()
        }),
        (if x {
            without_tags(first_pointers(x, xo, g, go, order), TAG_EXIF_IFD, TAG_EXIF_IFD)
        } else {
            first_pointers(x, xo, g, go, order)
        }) == first_pointers(false, xo, g, go, order),
        first_pointers(false, xo, g, go, order).filter(is_tag(TAG_GPS_IFD)) == (if g {
            seq![pointer_entry(TAG_GPS_IFD, go, order)]
        } else {
            Seq::empty()
        }),
        without_tags(first_pointers(false, xo, g, go, order), TAG_GPS_IFD, TAG_GPS_IFD)
            == Seq::<EntryView>::empty(),
{
    let none = Seq::<EntryView>::empty();
    let u = seq![pointer_entry(TAG_EXIF_IFD, xo, order)];
    let w = seq![pointer_entry(TAG_GPS_IFD, go, order)];
    lemma_one_pointer(TAG_EXIF_IFD, TAG_GPS_IFD, xo, order);
    lemma_one_pointer(TAG_GPS_IFD, TAG_EXIF_IFD, go, order);
    lemma_no_pointer(TAG_EXIF_IFD);
    lemma_no_pointer(TAG_GPS_IFD);
    assert(none + w =~= w);
    assert(none + none =~= none);
    assert(u + none =~= u);
    if x && g {
        Seq::filter_distributes_over_add(u, w, is_tag(TAG_EXIF_IFD));
        Seq::filter_distributes_over_add(u, w, is_tag(TAG_GPS_IFD));
        lemma_without_add(u, w, TAG_EXIF_IFD);
    }
}

/// Filtering out a tag, part by part.
proof fn lemma_without_add(u: Seq<EntryView>, w: Seq<EntryView>, tag: u16)
    ensures
        without_tags(u + w, tag, tag) == without_tags(u, tag, tag) + without_tags(w, tag, tag),
{
    Seq::filter_distributes_over_add(u, w, |e: EntryView| e.tag != tag && e.tag != tag);
}

/// One pointer, filtered.
proof fn lemma_one_pointer(tag: u16, other: u16, v: u32, order: ByteOrder)
    requires
        tag != other,
    ensures
        seq![pointer_entry(tag, v, order)].filter(is_tag(tag)) == seq![
            pointer_entry(tag, v, order),
        ],
        seq![pointer_entry(tag, v, order)].filter(is_tag(other)) == Seq::<EntryView>::empty(),
        without_tags(seq![pointer_entry(tag, v, order)], tag, tag) == Seq::<EntryView>::empty(),
        without_tags(seq![pointer_entry(tag, v, order)], other, other) == seq![
            pointer_entry(tag, v, order),
        ],
{
    let s = seq![pointer_entry(tag, v, order)];
    lemma_filter_all(s, is_tag(tag));
    lemma_filter_none(s, is_tag(other));
    lemma_filter_none(s, |e: EntryView| e.tag != tag && e.tag != tag);
    lemma_filter_all(s, |e: EntryView| e.tag != other && e.tag != other);
}

/// No pointer, filtered.
proof fn lemma_no_pointer(tag: u16)
    ensures
        Seq::<EntryView>::empty().filter(is_tag(tag)) == Seq::<EntryView>::empty(),
        without_tags(Seq::empty(), tag, tag) == Seq::<EntryView>::empty(),
{
    let s = Seq::<EntryView>::empty();
    lemma_filter_none(s, is_tag(tag));
    lemma_filter_none(s, |e: EntryView| e.tag != tag && e.tag != tag);
}

/// From a first directory as read back, the pointers come out and the entries
/// remain in tag order.
pub proof fn lemma_first_dir(
    d: Seq<EntryView>,
    raw: Seq<EntryView>,
    x: bool,
    xo: u32,
    g: bool,
    go: u32,
    order: ByteOrder,
)
    requires
        pointer_settled(d, TAG_EXIF_IFD, x, order),
        pointer_settled(d, TAG_GPS_IFD, g, order),
        similar(sort_by_tag(d + first_pointers(x, xo, g, go, order)), raw),
    ensures
        pointer_in(raw, TAG_EXIF_IFD, order) == (if x {
            Some(xo)
        } else {
            None
        }),
        pointer_in(without_pointer(raw, TAG_EXIF_IFD, order), TAG_GPS_IFD, order) == (if g {
            Some(go)
        } else {
            None
        }),
        similar(sort_by_tag(d), left_of(raw, x, g, order)),
{
    let ps = first_pointers(x, xo, g, go, order);
    let y = first_pointers(false, xo, g, go, order);
    lemma_first_pointers(x, xo, g, go, order);
    lemma_pointer_among(d, ps, TAG_EXIF_IFD, xo, x, order);
    lemma_pointer_step(d + ps, raw, TAG_EXIF_IFD, xo, x, order);
    let r1 = without_pointer(raw, TAG_EXIF_IFD, order);
    assert(similar(sort_by_tag(d + y), r1));
    lemma_pointer_among(d, y, TAG_GPS_IFD, go, g, order);
    lemma_pointer_step(d + y, r1, TAG_GPS_IFD, go, g, order);
    let none = Seq::<EntryView>::empty();
    assert(d + none =~= d);
    if !g {
        assert(y =~= none);
    }
    let r2 = without_pointer(r1, TAG_GPS_IFD, order);
    assert(similar(sort_by_tag(d), r2));
    lemma_similar_same(sort_by_tag(d), r2);
    if x {
        lemma_sort_lacks(d, TAG_EXIF_IFD);
        lemma_same_lacks(sort_by_tag(d), r2, TAG_EXIF_IFD);
        lemma_without_absent(r2, TAG_EXIF_IFD, TAG_EXIF_IFD);
    }
    if g {
        lemma_sort_lacks(d, TAG_GPS_IFD);
        lemma_same_lacks(sort_by_tag(d), r2, TAG_GPS_IFD);
        lemma_without_absent(r2, TAG_GPS_IFD, TAG_GPS_IFD);
    }
}

} // verus!
