//! Finding the thumbnail of a written tree.
use super::codec::{lemma_bytes32_reads_back, ByteOrder};
use super::ext::{lemma_similar_same, similar};
use super::layout::{pointer_entry, sort_by_tag};
use super::model::{first_index, first_with, thumbnail_in, without_tags, EntryView};
use super::reread::{found_at, lemma_similar_filter};
use super::roundtrip::{lacks_tag, lemma_reread_first};
use super::sorting::{lemma_filter_all, lemma_filter_none, lemma_sort_filter};
use super::tags::{TAG_THUMB_LENGTH, TAG_THUMB_OFFSET};
use vstd::prelude::*;

verus! {

broadcast use {super::codec::lemma_bytes16_len, super::codec::lemma_bytes32_len};

// ── Reading the parts back ──────────────────────────────────────────────────

/// What a thumbnail directory as read back leaves of its entries.
pub open spec fn left_of_thumb(es: Seq<EntryView>, found: bool) -> Seq<EntryView> {
    if found {
        without_tags(es, TAG_THUMB_OFFSET, TAG_THUMB_LENGTH)
    } else {
        es
    }
}

/// The synthesized thumbnail location leads to the thumbnail.
pub proof fn lemma_thumb_found(
    tiff: Seq<u8>,
    d: Seq<EntryView>,
    es: Seq<EntryView>,
    off: u32,
    t: Seq<u8>,
    order: ByteOrder,
)
    requires
        lacks_tag(d, TAG_THUMB_OFFSET),
        lacks_tag(d, TAG_THUMB_LENGTH),
        t.len() <= u32::MAX,
        found_at(tiff, off as int, t),
        similar(
            sort_by_tag(
                d + seq![
                    pointer_entry(TAG_THUMB_OFFSET, off, order),
                    pointer_entry(TAG_THUMB_LENGTH, t.len() as u32, order),
                ],
            ),
            es,
        ),
    ensures
        thumbnail_in(tiff, es, order) == Some(t),
        similar(sort_by_tag(d), left_of_thumb(es, true)),
{
    let po = pointer_entry(TAG_THUMB_OFFSET, off, order);
    let pl = pointer_entry(TAG_THUMB_LENGTH, t.len() as u32, order);
    let ptrs = seq![po, pl];
    let all = d + ptrs;
    let none = Seq::<EntryView>::empty();
    lemma_first_behind(d, seq![po], seq![pl], TAG_THUMB_OFFSET);
    lemma_first_behind(d + seq![po], seq![pl], none, TAG_THUMB_LENGTH);
    assert(all =~= d + seq![po] + seq![pl]);
    assert(all =~= d + seq![po] + seq![pl] + none);
    lemma_similar_same(sort_by_tag(all), es);
    lemma_reread_first(all, es, TAG_THUMB_OFFSET);
    lemma_reread_first(all, es, TAG_THUMB_LENGTH);
    lemma_bytes32_reads_back(off, order);
    lemma_bytes32_reads_back(t.len() as u32, order);
    let q = |e: EntryView| e.tag != TAG_THUMB_OFFSET && e.tag != TAG_THUMB_LENGTH;
    lemma_similar_filter(sort_by_tag(all), es, q);
    lemma_sort_filter(all, q);
    Seq::filter_distributes_over_add(d, ptrs, q);
    lemma_filter_all(d, q);
    lemma_filter_none(ptrs, q);
    assert(d + none =~= d);
}

/// The first entry with a tag, where nothing before it has the tag.
pub proof fn lemma_first_behind(d: Seq<EntryView>, p: Seq<EntryView>, rest: Seq<EntryView>, tag: u16)
    requires
        lacks_tag(d, tag),
        p.len() == 1,
        p[0].tag == tag,
    ensures
        first_with(d + p + rest, tag) == Some(p[0]),
{
    let all = d + p + rest;
    super::tree::lemma_first_index(all, tag);
    let k = first_index(all, tag);
    let n = d.len() as int;
    assert(all[n] == p[0]);
    if k < n {
        assert(all[k] == d[k]);
    }
}

} // verus!
