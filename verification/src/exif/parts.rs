//! Reading the parts of a written tree back.
use super::codec::ByteOrder;
use super::ext::{same_entries, same_entry, similar};
use super::layout::{pointer_entry, slots_fit, sort_by_tag, sub_bytes, table_len};
use super::model::{ifd_at, pointer_in, without_pointer, without_tags, EntryView};
use super::reread::{found_at, lemma_ifd_reads_back, lemma_placed_similar, placed_all};
use super::roundtrip::{
    dir_ok, is_tag, lacks_tag, lemma_first_of_tag, lemma_sorted_ok, pointer_settled,
};
use super::sorting::{lemma_filter_all, lemma_filter_none, lemma_sort_sorted};
use super::tags::{TAG_EXIF_IFD, TAG_GPS_IFD};
use vstd::prelude::*;

verus! {

broadcast use {super::codec::lemma_bytes16_len, super::codec::lemma_bytes32_len};

// ── Reading the parts back ──────────────────────────────────────────────────

/// A directory without pointers is read back in tag order.
pub proof fn lemma_sub_reads_back(tiff: Seq<u8>, d: Seq<EntryView>, off: int, order: ByteOrder)
    requires
        dir_ok(d),
        d.len() <= 1000,
        0 <= off,
        slots_fit(sort_by_tag(d), off + table_len(d.len() as int)),
        found_at(tiff, off, sub_bytes(Some(d), off, order)),
    ensures
        ifd_at(tiff, off, order) == Some((placed_all(sort_by_tag(d), off), 0u32)),
        similar(sort_by_tag(d), placed_all(sort_by_tag(d), off)),
{
    lemma_sorted_ok(d);
    lemma_ifd_reads_back(tiff, sort_by_tag(d), off, 0, order);
    lemma_placed_similar(sort_by_tag(d), off);
}

/// A pointer among written entries is the only one with its tag.
pub proof fn lemma_pointer_among(
    d: Seq<EntryView>,
    y: Seq<EntryView>,
    tag: u16,
    v: u32,
    synthesized: bool,
    order: ByteOrder,
)
    requires
        pointer_settled(d, tag, synthesized, order),
        y.filter(is_tag(tag)) == (if synthesized {
            seq![pointer_entry(tag, v, order)]
        } else {
            Seq::empty()
        }),
    ensures
        synthesized ==> (d + y).filter(is_tag(tag)) == seq![pointer_entry(tag, v, order)],
        synthesized ==> without_tags(d + y, tag, tag) == d + without_tags(y, tag, tag),
        !synthesized ==> pointer_in(d + y, tag, order) is None,
{
    let p = is_tag(tag);
    let q = |e: EntryView| e.tag != tag && e.tag != tag;
    Seq::filter_distributes_over_add(d, y, p);
    if synthesized {
        lemma_filter_none(d, p);
        assert(Seq::<EntryView>::empty() + y.filter(p) =~= y.filter(p));
        Seq::filter_distributes_over_add(d, y, q);
        lemma_filter_all(d, q);
    } else {
        assert(d.filter(p) + y.filter(p) =~= d.filter(p));
        lemma_first_of_tag(d, tag);
        lemma_first_of_tag(d + y, tag);
    }
}

/// The pointers of a first directory.
pub open spec fn first_pointers(x: bool, xo: u32, g: bool, go: u32, order: ByteOrder) -> Seq<
    EntryView,
> {
    (if x {
        seq![pointer_entry(TAG_EXIF_IFD, xo, order)]
    } else {
        Seq::empty()
    }) + (if g {
        seq![pointer_entry(TAG_GPS_IFD, go, order)]
    } else {
        Seq::empty()
    })
}

/// What a first directory as read back leaves of its entries, where the Exif
/// (`x`) and GPS (`g`) directories were found.
pub open spec fn left_of(raw: Seq<EntryView>, x: bool, g: bool, order: ByteOrder) -> Seq<
    EntryView,
> {
    let rest = without_pointer(without_pointer(raw, TAG_EXIF_IFD, order), TAG_GPS_IFD, order);
    let a = if x {
        without_tags(rest, TAG_EXIF_IFD, TAG_EXIF_IFD)
    } else {
        rest
    };
    if g {
        without_tags(a, TAG_GPS_IFD, TAG_GPS_IFD)
    } else {
        a
    }
}

/// Sorting brings in no tag.
pub proof fn lemma_sort_lacks(d: Seq<EntryView>, tag: u16)
    requires
        lacks_tag(d, tag),
    ensures
        lacks_tag(sort_by_tag(d), tag),
{
    lemma_sort_sorted(d);
    let s = sort_by_tag(d);
    assert forall|i: int| 0 <= i < s.len() implies (#[trigger] s[i]).tag != tag by {
        assert(d.contains(s[i]));
        let k = d.index_of(s[i]);
        assert(d[k] == s[i]);
    }
}

/// The same entries lack the same tags.
pub proof fn lemma_same_lacks(a: Seq<EntryView>, b: Seq<EntryView>, tag: u16)
    requires
        same_entries(a, b),
        lacks_tag(a, tag),
    ensures
        lacks_tag(b, tag),
{
    assert forall|i: int| 0 <= i < b.len() implies (#[trigger] b[i]).tag != tag by {
        assert(same_entry(a[i], b[i]));
    }
}

} // verus!
