//! Any parsed tree can be written and parsed again.
use super::canonical::lemma_framing;
use super::codec::{lemma_bytes32_reads_back, ByteOrder};
use super::edit::{orientation_of, text_of};
use super::ext::{lemma_similar_same, same_entries, same_entry};
use super::firstdir::lemma_first_pointers;
use super::in_place::{lemma_pointer_keeps, lemma_tree_first};
use super::laws::{law_round_trip, law_written_is_canonical};
use super::layout::{pointer_entry, sort_by_tag};
use super::model::{
    first_with, ifd_at, parse_blob, pointer_in, tiff_of, without_pointer, without_tags, EntryView,
    ExifView,
};
use super::parts::{first_pointers, lemma_pointer_among, lemma_sub_reads_back};
use super::provenance::lemma_parsed_tree;
use super::pruning::lemma_read_dir_ok;
use super::roundtrip::{
    dir_ok, is_tag, lacks_tag, lemma_first_of_tag, lemma_reread_first, lemma_sections,
    pointer_settled,
};
use super::sections::{lemma_header, lemma_ifd0_reads_back, lemma_thumb_dir};
use super::sorting::{lemma_filter_elem, lemma_filter_none};
use super::tags::{
    TAG_EXIF_IFD, TAG_GPS_IFD, TAG_INTEROP_IFD, TAG_ORIENTATION, TAG_THUMB_LENGTH, TAG_THUMB_OFFSET,
};
use vstd::prelude::*;

verus! {

/// The synthesized pointers carry pointer tags only.
proof fn lemma_pointers_only(v: ExifView, tag: u16)
    requires
        tag != TAG_EXIF_IFD,
        tag != TAG_GPS_IFD,
    ensures
        first_with(v.ifd0 + v.ptrs0(), tag) == first_with(v.ifd0, tag),
{
    let ps = v.ptrs0();
    let p = is_tag(tag);
    assert(ps == first_pointers(
        v.exif_ifd is Some,
        v.exif_off() as u32,
        v.gps_ifd is Some,
        v.gps_off() as u32,
        v.order,
    ));
    lemma_filter_none(ps, p);
    Seq::filter_distributes_over_add(v.ifd0, ps, p);
    assert(v.ifd0.filter(p) + Seq::<EntryView>::empty() =~= v.ifd0.filter(p));
    lemma_first_of_tag(v.ifd0, tag);
    lemma_first_of_tag(v.ifd0 + ps, tag);
}

/// The first entry of a tag survives writing, though the tree's pointers may
/// not be settled.
pub proof fn lemma_entry_survives(v: ExifView, tag: u16)
    requires
        dir_ok(v.ifd0),
        v.ifd0.len() + v.pointers0() <= 1000,
        v.offsets_fit(),
        tag != TAG_EXIF_IFD,
        tag != TAG_GPS_IFD,
    ensures
        parse_blob(v.blob_bytes()) matches Some(r) && r.order == v.order && r.had_prefix
            == v.had_prefix && (first_with(v.ifd0, tag) is Some <==> first_with(r.ifd0, tag) is Some)
            && (first_with(v.ifd0, tag) is Some ==> same_entry(
            first_with(v.ifd0, tag)->0,
            first_with(r.ifd0, tag)->0,
        )),
{
    lemma_framing(v);
    lemma_header(v);
    lemma_ifd0_reads_back(v);
    let tiff = v.tiff_bytes();
    let (raw, next) = ifd_at(tiff, 8, v.order)->0;
    lemma_similar_same(sort_by_tag(v.ifd0 + v.ptrs0()), raw);
    lemma_reread_first(v.ifd0 + v.ptrs0(), raw, tag);
    lemma_pointers_only(v, tag);
    lemma_tree_first(tiff, v.had_prefix, v.order, raw, next, tag);
}

/// Whatever was parsed, writing it gives a blob that parses again, in the same
/// byte order and framing, with the orientation and texts that the first
/// directory had, within the size that 32-bit offsets allow.
pub proof fn law_parsed_reserializes(data: Seq<u8>, x: ExifView, tag: u16)
    requires
        parse_blob(data) == Some(x),
        x.offsets_fit(),
        tag != TAG_EXIF_IFD,
        tag != TAG_GPS_IFD,
    ensures
        parse_blob(x.blob_bytes()) matches Some(r) && r.order == x.order && r.had_prefix
            == x.had_prefix && orientation_of(r.ifd0, r.order) == orientation_of(x.ifd0, x.order)
            && text_of(r.ifd0, tag) == text_of(x.ifd0, tag),
{
    lemma_parsed_tree(data);
    lemma_read_dir_ok(x.ifd0, tiff_of(data));
    lemma_entry_survives(x, TAG_ORIENTATION);
    lemma_entry_survives(x, tag);
}

/// Dropping a tag leaves none, and dropping others brings none back.
proof fn lemma_dropped(es: Seq<EntryView>, a: u16, b: u16, tag: u16)
    requires
        tag == a || tag == b || lacks_tag(es, tag),
    ensures
        lacks_tag(without_tags(es, a, b), tag),
{
    let p = |e: EntryView| e.tag != a && e.tag != b;
    let r = es.filter(p);
    assert forall|i: int| 0 <= i < r.len() implies (#[trigger] r[i]).tag != tag by {
        lemma_filter_elem(es, p, i);
        let k = es.index_of(r[i]);
        assert(es[k] == r[i]);
    }
}

/// A directory that was found leaves no pointer to it, and a thumbnail that was
/// found no entry that locates it.
proof fn lemma_found_is_taken_out(data: Seq<u8>, x: ExifView)
    requires
        parse_blob(data) == Some(x),
    ensures
        x.exif_ifd is Some ==> lacks_tag(x.ifd0, TAG_EXIF_IFD),
        x.gps_ifd is Some ==> lacks_tag(x.ifd0, TAG_GPS_IFD),
        x.thumbnail is Some ==> (x.ifd1 matches Some(d) && lacks_tag(d, TAG_THUMB_OFFSET)
            && lacks_tag(d, TAG_THUMB_LENGTH)),
{
    let tiff = tiff_of(data);
    let order = x.order;
    let (raw, next) = ifd_at(tiff, super::codec::u32_at(tiff, 4, order) as int, order)->0;
    let r1 = without_pointer(raw, TAG_EXIF_IFD, order);
    let r2 = without_pointer(r1, TAG_GPS_IFD, order);
    let r3 = if x.exif_ifd is Some {
        without_tags(r2, TAG_EXIF_IFD, TAG_EXIF_IFD)
    } else {
        r2
    };
    if x.exif_ifd is Some {
        lemma_dropped(r2, TAG_EXIF_IFD, TAG_EXIF_IFD, TAG_EXIF_IFD);
        lemma_dropped(r3, TAG_GPS_IFD, TAG_GPS_IFD, TAG_EXIF_IFD);
    }
    if x.gps_ifd is Some {
        lemma_dropped(r3, TAG_GPS_IFD, TAG_GPS_IFD, TAG_GPS_IFD);
    }
    if x.thumbnail is Some {
        let es = (ifd_at(tiff, next as int, order)->0).0;
        lemma_dropped(es, TAG_THUMB_OFFSET, TAG_THUMB_LENGTH, TAG_THUMB_OFFSET);
        lemma_dropped(es, TAG_THUMB_OFFSET, TAG_THUMB_LENGTH, TAG_THUMB_LENGTH);
    }
}

impl ExifView {
    /// Whether no entry of a parsed tree would be taken for a pointer or a
    /// thumbnail's location that reading did not follow: a second pointer behind
    /// one that led nowhere, or a location that was out of bounds and no longer
    /// is.
    pub open spec fn settled(self) -> bool {
        &&& pointer_settled(self.ifd0, TAG_EXIF_IFD, self.exif_ifd is Some, self.order)
        &&& pointer_settled(self.ifd0, TAG_GPS_IFD, self.gps_ifd is Some, self.order)
        &&& self.exif_ifd matches Some(d) ==> pointer_in(d, TAG_INTEROP_IFD, self.order) is None
        &&& self.thumbnail_settled()
    }
}

/// A parsed tree in which nothing is left to be taken for a pointer survives
/// being written and read back: as a tree in canonical form, of which the
/// written blob is a fixed point.
pub proof fn law_parsed_round_trips(data: Seq<u8>, x: ExifView)
    requires
        parse_blob(data) == Some(x),
        x.offsets_fit(),
        x.settled(),
    ensures
        x.encodable(),
        parse_blob(x.blob_bytes()) matches Some(r) && x.canonically(r) && r.blob_bytes()
            == x.blob_bytes(),
{
    let tiff = tiff_of(data);
    lemma_parsed_tree(data);
    lemma_read_dir_ok(x.ifd0, tiff);
    if let Some(d) = x.exif_ifd {
        lemma_read_dir_ok(d, tiff);
    }
    if let Some(d) = x.gps_ifd {
        lemma_read_dir_ok(d, tiff);
    }
    if let Some(d) = x.ifd1 {
        lemma_read_dir_ok(d, tiff);
    }
    law_round_trip(x);
    law_written_is_canonical(x);
}

/// Whatever was parsed, writing it and reading it back finds the thumbnail again,
/// and none where there was none. Entries that locate a thumbnail beyond the
/// source, but inside what is written, are excluded.
pub proof fn law_parsed_keeps_thumbnail(data: Seq<u8>, x: ExifView)
    requires
        parse_blob(data) == Some(x),
        x.offsets_fit(),
        x.thumbnail is None ==> x.thumbnail_settled(),
    ensures
        parse_blob(x.blob_bytes()) matches Some(r) && r.thumbnail == x.thumbnail && (
        r.ifd1 is Some <==> x.ifd1 is Some),
{
    lemma_parsed_tree(data);
    lemma_found_is_taken_out(data, x);
    lemma_read_dir_ok(x.ifd0, tiff_of(data));
    lemma_framing(x);
    lemma_header(x);
    lemma_ifd0_reads_back(x);
    if let Some(d) = x.ifd1 {
        lemma_read_dir_ok(d, tiff_of(data));
        lemma_thumb_dir(x);
    }
}

/// A pointer that heads the entries with its tag is what is read of the tag.
proof fn lemma_heading_pointer(items: Seq<EntryView>, tag: u16, v: u32, order: ByteOrder)
    requires
        items.filter(is_tag(tag)) == seq![pointer_entry(tag, v, order)],
    ensures
        pointer_in(items, tag, order) == Some(v),
{
    lemma_first_of_tag(items, tag);
    lemma_bytes32_reads_back(v, order);
    assert(seq![pointer_entry(tag, v, order)][0] == pointer_entry(tag, v, order));
}

/// Taking another pointer out keeps what is read of a tag.
proof fn lemma_other_pointer(raw: Seq<EntryView>, ptr: u16, tag: u16, order: ByteOrder)
    requires
        ptr != tag,
    ensures
        first_with(without_pointer(raw, ptr, order), tag) == first_with(raw, tag),
{
    lemma_pointer_keeps(raw, ptr, order, tag);
    lemma_first_of_tag(raw, tag);
    lemma_first_of_tag(without_pointer(raw, ptr, order), tag);
}

/// Entries that were read back hold the pointer that was written.
proof fn lemma_pointer_reread(
    items: Seq<EntryView>,
    raw: Seq<EntryView>,
    tag: u16,
    order: ByteOrder,
)
    requires
        same_entries(sort_by_tag(items), raw),
    ensures
        pointer_in(raw, tag, order) == pointer_in(items, tag, order),
{
    lemma_reread_first(items, raw, tag);
}

/// The GPS pointer among the entries and pointers of a first directory.
proof fn lemma_gps_pointer(
    d: Seq<EntryView>,
    x: bool,
    xo: u32,
    g: bool,
    go: u32,
    order: ByteOrder,
)
    requires
        pointer_settled(d, TAG_GPS_IFD, g, order),
    ensures
        pointer_in(d + first_pointers(x, xo, g, go, order), TAG_GPS_IFD, order) == (if g {
            Some(go)
        } else {
            None
        }),
{
    let ps = first_pointers(x, xo, g, go, order);
    if g {
        assert(ps.filter(is_tag(TAG_GPS_IFD)) == seq![pointer_entry(TAG_GPS_IFD, go, order)]) by {
            lemma_first_pointers(x, xo, g, go, order);
        }
    } else {
        assert(ps.filter(is_tag(TAG_GPS_IFD)) == Seq::<EntryView>::empty()) by {
            lemma_first_pointers(x, xo, g, go, order);
        }
    }
    lemma_pointer_among(d, ps, TAG_GPS_IFD, go, g, order);
    if g {
        lemma_heading_pointer(d + ps, TAG_GPS_IFD, go, order);
    }
}

/// Whatever was parsed, writing it and reading it back finds a GPS directory
/// exactly if there was one. A second GPS pointer behind one that led nowhere is
/// excluded.
pub proof fn law_parsed_keeps_gps(data: Seq<u8>, x: ExifView)
    requires
        parse_blob(data) == Some(x),
        x.offsets_fit(),
        x.gps_ifd is None ==> pointer_in(x.ifd0, TAG_GPS_IFD, x.order) is None,
    ensures
        parse_blob(x.blob_bytes()) matches Some(r) && (r.gps_ifd is Some <==> x.gps_ifd is Some),
{
    let order = x.order;
    let tiff = x.tiff_bytes();
    lemma_parsed_tree(data);
    lemma_found_is_taken_out(data, x);
    lemma_read_dir_ok(x.ifd0, tiff_of(data));
    lemma_framing(x);
    lemma_header(x);
    lemma_ifd0_reads_back(x);
    let raw = (ifd_at(tiff, 8, order)->0).0;
    let e = x.exif_ifd is Some;
    let g = x.gps_ifd is Some;
    let xo = x.exif_off() as u32;
    let go = x.gps_off() as u32;
    assert(x.ptrs0() == first_pointers(e, xo, g, go, order));
    lemma_similar_same(sort_by_tag(x.ifd0 + x.ptrs0()), raw);
    lemma_gps_pointer(x.ifd0, e, xo, g, go, order);
    lemma_pointer_reread(x.ifd0 + x.ptrs0(), raw, TAG_GPS_IFD, order);
    lemma_other_pointer(raw, TAG_EXIF_IFD, TAG_GPS_IFD, order);
    if let Some(d) = x.gps_ifd {
        lemma_sections(x);
        lemma_read_dir_ok(d, tiff_of(data));
        lemma_sub_reads_back(tiff, d, x.gps_off(), order);
    }
}

} // verus!
