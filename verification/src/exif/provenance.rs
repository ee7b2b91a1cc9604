//! What holds of every tree that was read from a blob.
use super::codec::ByteOrder;
use super::model::{
    entries_at, first_index, ifd_at, parse_blob, pointer_in, rows_inside, tiff_of, without_pointer,
    without_tags, EntryView, ExifView,
};
use super::sorting::lemma_filter_elem;
use super::tags::{
    element_size, TAG_EXIF_IFD, TAG_GPS_IFD, TAG_INTEROP_IFD, TAG_THUMB_LENGTH, TAG_THUMB_OFFSET,
};
use super::tree::lemma_first_index;
use vstd::prelude::*;

verus! {

/// Whether the declared type and count agree with the value's length.
pub open spec fn consistent(e: EntryView) -> bool {
    element_size(e.kind) matches Some(size) && e.count * size == e.value.len()
}

/// Whether `e` was read from `tiff`: its value is the window at its origin,
/// and the four bytes at the origin are inside in any case.
pub open spec fn read_from(e: EntryView, tiff: Seq<u8>) -> bool {
    &&& consistent(e)
    &&& e.origin() matches Some(o) && o + 4 <= tiff.len() && o + e.value.len() <= tiff.len()
        && e.value == tiff.subrange(o as int, (o + e.value.len()) as int)
}

/// Whether all of `entries` were read from `tiff`.
pub open spec fn all_read_from(entries: Seq<EntryView>, tiff: Seq<u8>) -> bool {
    forall|i: int| 0 <= i < entries.len() ==> read_from(#[trigger] entries[i], tiff)
}

/// [`all_read_from`] of a directory that may be absent.
pub open spec fn opt_read_from(entries: Option<Seq<EntryView>>, tiff: Seq<u8>) -> bool {
    entries matches Some(d) ==> all_read_from(d, tiff)
}

/// A directory that may be absent holds at most `n` entries.
pub open spec fn opt_within(entries: Option<Seq<EntryView>>, n: int) -> bool {
    entries matches Some(d) ==> d.len() <= n
}

impl ExifView {
    /// Whether every value of the tree was read from `tiff`.
    pub open spec fn read_from(self, tiff: Seq<u8>) -> bool {
        &&& all_read_from(self.ifd0, tiff)
        &&& opt_read_from(self.exif_ifd, tiff)
        &&& opt_read_from(self.gps_ifd, tiff)
        &&& opt_read_from(self.ifd1, tiff)
    }

    /// Whether every directory, with its pointers, is within the entry cap.
    pub open spec fn within_caps(self) -> bool {
        &&& self.ifd0.len() + self.pointers0() <= 1000
        &&& opt_within(self.exif_ifd, 1000)
        &&& opt_within(self.gps_ifd, 1000)
        &&& opt_within(self.ifd1, 1000 - self.pointers1())
    }
}

/// A table's entries were read from the stream, and are no more than its rows.
pub proof fn lemma_entries_at(tiff: Seq<u8>, start: int, n: nat, order: ByteOrder)
    requires
        0 <= start,
        start + 12 * n <= tiff.len(),
    ensures
        all_read_from(entries_at(tiff, start, n, order), tiff),
        entries_at(tiff, start, n, order).len() <= n,
    decreases n,
{
    if n > 0 {
        lemma_entries_at(tiff, start, (n - 1) as nat, order);
    }
}

/// A directory's entries were read from the stream, and are within the cap.
pub proof fn lemma_ifd_at(tiff: Seq<u8>, off: int, order: ByteOrder)
    requires
        0 <= off,
    ensures
        ifd_at(tiff, off, order) matches Some((es, _)) ==> all_read_from(es, tiff) && es.len()
            <= 1000,
{
    if ifd_at(tiff, off, order) is Some {
        let count = super::codec::u16_at(tiff, off, order) as int;
        let rows = rows_inside(tiff.len() as int, off + 2, count);
        lemma_entries_at(tiff, off + 2, rows as nat, order);
    }
}

/// Taking out a pointer keeps where the other entries were read from.
pub proof fn lemma_without_pointer(es: Seq<EntryView>, tag: u16, order: ByteOrder, tiff: Seq<u8>)
    requires
        all_read_from(es, tiff),
    ensures
        all_read_from(without_pointer(es, tag, order), tiff),
        without_pointer(es, tag, order).len() <= es.len(),
        pointer_in(es, tag, order) is Some ==> without_pointer(es, tag, order).len() == es.len() - 1,
{
    lemma_first_index(es, tag);
}

/// Dropping tags keeps where the other entries were read from.
pub proof fn lemma_without_tags(es: Seq<EntryView>, a: u16, b: u16, tiff: Seq<u8>)
    requires
        all_read_from(es, tiff),
    ensures
        all_read_from(without_tags(es, a, b), tiff),
        without_tags(es, a, b).len() <= es.len(),
{
    let p = |e: EntryView| e.tag != a && e.tag != b;
    let r = es.filter(p);
    es.lemma_filter_len(p);
    assert forall|i: int| 0 <= i < r.len() implies read_from(#[trigger] r[i], tiff) by {
        lemma_filter_elem(es, p, i);
        let k = es.index_of(r[i]);
        assert(es[k] == r[i]);
    }
}

/// Filtering out two entries leaves two fewer.
pub proof fn lemma_filter_drops_two(
    es: Seq<EntryView>,
    p: spec_fn(EntryView) -> bool,
    i: int,
    j: int,
)
    requires
        0 <= i < es.len(),
        0 <= j < es.len(),
        i != j,
        !p(es[i]),
        !p(es[j]),
    ensures
        es.filter(p).len() <= es.len() - 2,
    decreases es.len(),
{
    reveal(Seq::filter);
    let q = es.drop_last();
    let last = es.len() - 1;
    if i == last {
        lemma_filter_drops_one(q, p, j);
    } else if j == last {
        lemma_filter_drops_one(q, p, i);
    } else {
        lemma_filter_drops_two(q, p, i, j);
    }
}

/// Filtering out an entry leaves one fewer.
pub proof fn lemma_filter_drops_one(es: Seq<EntryView>, p: spec_fn(EntryView) -> bool, i: int)
    requires
        0 <= i < es.len(),
        !p(es[i]),
    ensures
        es.filter(p).len() <= es.len() - 1,
    decreases es.len(),
{
    reveal(Seq::filter);
    let q = es.drop_last();
    if i == es.len() - 1 {
        q.lemma_filter_len(p);
    } else {
        lemma_filter_drops_one(q, p, i);
    }
}

/// Everything in a parsed tree was read from the blob's TIFF stream, and every
/// directory is within the entry cap, counting the pointers that writing the
/// tree adds.
pub proof fn lemma_parsed_tree(data: Seq<u8>)
    ensures
        parse_blob(data) matches Some(x) ==> x.read_from(tiff_of(data)) && x.within_caps() && (
        x.thumbnail is Some ==> x.ifd1 is Some),
{
    let tiff = tiff_of(data);
    if let Some(x) = parse_blob(data) {
        let order = x.order;
        let off = super::codec::u32_at(tiff, 4, order) as int;
        lemma_ifd_at(tiff, off, order);
        let (raw, next) = ifd_at(tiff, off, order)->0;
        let rest = without_pointer(raw, TAG_EXIF_IFD, order);
        lemma_without_pointer(raw, TAG_EXIF_IFD, order, tiff);
        lemma_without_pointer(rest, TAG_GPS_IFD, order, tiff);
        let rest2 = without_pointer(rest, TAG_GPS_IFD, order);
        lemma_without_tags(rest2, TAG_EXIF_IFD, TAG_EXIF_IFD, tiff);
        let rest3 = if x.exif_ifd is Some {
            without_tags(rest2, TAG_EXIF_IFD, TAG_EXIF_IFD)
        } else {
            rest2
        };
        lemma_without_tags(rest3, TAG_GPS_IFD, TAG_GPS_IFD, tiff);
        if let Some(o) = pointer_in(raw, TAG_EXIF_IFD, order) {
            lemma_ifd_at(tiff, o as int, order);
            if let Some((es, _)) = ifd_at(tiff, o as int, order) {
                lemma_without_pointer(es, TAG_INTEROP_IFD, order, tiff);
            }
        }
        if let Some(o) = pointer_in(rest, TAG_GPS_IFD, order) {
            lemma_ifd_at(tiff, o as int, order);
        }
        if next != 0 {
            lemma_ifd_at(tiff, next as int, order);
            if let Some((es, _)) = ifd_at(tiff, next as int, order) {
                if x.thumbnail is Some {
                    lemma_without_tags(es, TAG_THUMB_OFFSET, TAG_THUMB_LENGTH, tiff);
                    lemma_first_index(es, TAG_THUMB_OFFSET);
                    lemma_first_index(es, TAG_THUMB_LENGTH);
                    lemma_filter_drops_two(
                        es,
                        |e: EntryView| e.tag != TAG_THUMB_OFFSET && e.tag != TAG_THUMB_LENGTH,
                        first_index(es, TAG_THUMB_OFFSET),
                        first_index(es, TAG_THUMB_LENGTH),
                    );
                }
            }
        }
    }
}

} // verus!
