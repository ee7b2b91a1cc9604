//! Authored trees can be written and read back.
use super::codec::ByteOrder;
use super::edit::{
    nul_index, orientation_entry_view, orientation_of, orientation_put, put_entry, text_entry,
    text_of, uint_field, with_uint,
};
use super::laws::{
    law_canonical_form_reads_alike, law_put_keeps_others, law_round_trip,
    law_set_orientation_reads_back, law_set_text_reads_back,
};
use super::layout::{ext_data, sort_by_tag};
use super::model::{
    first_index, first_with, parse_blob, pointer_in, EntryView, ExifView, TextEncoding,
};
use super::provenance::{consistent, opt_within};
use super::roundtrip::{dir_ok, lacks_tag, locates_thumbnail, opt_dir_ok, pointer_settled};
use super::tags::{
    element_size, Category, TAG_EXIF_IFD, TAG_GPS_IFD, TAG_INTEROP_IFD, TAG_ORIENTATION,
    TAG_THUMB_LENGTH, TAG_THUMB_OFFSET,
};
use super::tree::lemma_first_index;
use crate::orientation::Orientation;
use vstd::prelude::*;

verus! {

broadcast use {super::codec::lemma_bytes16_len, super::codec::lemma_bytes32_len};

/// A tree with nothing in it.
pub open spec fn empty_tree(encoding: TextEncoding) -> ExifView {
    ExifView {
        order: ByteOrder::Little,
        had_prefix: false,
        ifd0: Seq::empty(),
        exif_ifd: None,
        gps_ifd: None,
        ifd1: None,
        thumbnail: None,
        text_encoding: encoding,
    }
}

/// A tree with nothing in it can be written and read back.
pub proof fn law_empty_tree_is_encodable(encoding: TextEncoding)
    ensures
        empty_tree(encoding).encodable(),
{
    let v = empty_tree(encoding);
    lemma_first_index(v.ifd0, TAG_EXIF_IFD);
    lemma_first_index(v.ifd0, TAG_GPS_IFD);
    assert(sort_by_tag(v.ifd0) == v.ifd0);
    assert(ext_data(v.ifd0).len() == 0);
}

/// `v` with `e` put into its first directory.
pub open spec fn with_entry(v: ExifView, e: EntryView) -> ExifView {
    ExifView { ifd0: put_entry(v.ifd0, e), ..v }
}

/// Whether `v` is within the caps and sizes that writing needs, and no entry
/// of a thumbnail directory without thumbnail is taken for its location.
pub open spec fn has_room(v: ExifView) -> bool {
    &&& v.ifd0.len() + v.pointers0() <= 1000
    &&& v.offsets_fit()
    &&& v.ifd1 matches Some(d) ==> v.thumbnail is None ==> !locates_thumbnail(
        d,
        v.order,
        v.tiff_len(),
    )
}

/// Whether `v` can be written and read back where it has room.
pub open spec fn sound(v: ExifView) -> bool {
    &&& dir_ok(v.ifd0)
    &&& opt_dir_ok(v.exif_ifd)
    &&& opt_dir_ok(v.gps_ifd)
    &&& opt_dir_ok(v.ifd1)
    &&& opt_within(v.exif_ifd, 1000)
    &&& opt_within(v.gps_ifd, 1000)
    &&& opt_within(v.ifd1, 1000 - v.pointers1())
    &&& v.thumbnail is Some ==> v.ifd1 is Some
    &&& v.ifd1 matches Some(d) ==> v.thumbnail is Some ==> lacks_tag(d, TAG_THUMB_OFFSET)
        && lacks_tag(d, TAG_THUMB_LENGTH)
    &&& pointer_settled(v.ifd0, TAG_EXIF_IFD, v.exif_ifd is Some, v.order)
    &&& pointer_settled(v.ifd0, TAG_GPS_IFD, v.gps_ifd is Some, v.order)
    &&& v.exif_ifd matches Some(d) ==> pointer_in(d, TAG_INTEROP_IFD, v.order) is None
}

/// A tree can be written and read back if it is sound and has room.
pub proof fn lemma_sound_with_room(v: ExifView)
    ensures
        v.encodable() <==> sound(v) && has_room(v),
{
}

/// Putting a consistent entry keeps a directory's entries consistent.
pub proof fn lemma_put_keeps_dir(d: Seq<EntryView>, e: EntryView)
    requires
        dir_ok(d),
        consistent(e),
    ensures
        dir_ok(put_entry(d, e)),
{
    let r = put_entry(d, e);
    lemma_first_index(d, e.tag);
    let k = first_index(d, e.tag);
    assert(r[k] == e);
    assert forall|i: int| 0 <= i < r.len() implies consistent(#[trigger] r[i]) by {
        if i != k {
            assert(r[i] == d[i]);
            assert(consistent(d[i]));
        }
    }
}

/// An authored entry that is no pointer keeps a tree sound.
pub proof fn lemma_put_keeps_sound(v: ExifView, e: EntryView)
    requires
        sound(v),
        consistent(e),
        e.tag != TAG_EXIF_IFD,
        e.tag != TAG_GPS_IFD,
    ensures
        sound(with_entry(v, e)),
{
    let d = v.ifd0;
    let r = put_entry(d, e);
    lemma_first_index(d, e.tag);
    let k = first_index(d, e.tag);
    assert(r[k] == e);
    assert forall|i: int| 0 <= i < r.len() && i != k implies #[trigger] r[i] == d[i] by {}
    lemma_put_keeps_dir(d, e);
    law_put_keeps_others(d, e, TAG_EXIF_IFD);
    law_put_keeps_others(d, e, TAG_GPS_IFD);
    if v.exif_ifd is Some {
        assert forall|i: int| 0 <= i < r.len() implies (#[trigger] r[i]).tag != TAG_EXIF_IFD by {
            if i != k {
                assert(r[i] == d[i]);
            }
        }
    }
    if v.gps_ifd is Some {
        assert forall|i: int| 0 <= i < r.len() implies (#[trigger] r[i]).tag != TAG_GPS_IFD by {
            if i != k {
                assert(r[i] == d[i]);
            }
        }
    }
}

/// An authored entry that is no pointer keeps a tree writable, where there is
/// room for it.
pub proof fn law_put_keeps_encodable(v: ExifView, e: EntryView)
    requires
        v.encodable(),
        consistent(e),
        e.tag != TAG_EXIF_IFD,
        e.tag != TAG_GPS_IFD,
        has_room(with_entry(v, e)),
    ensures
        with_entry(v, e).encodable(),
{
    lemma_sound_with_room(v);
    lemma_put_keeps_sound(v, e);
    lemma_sound_with_room(with_entry(v, e));
}

/// A text entry is consistent, where its length is a count.
pub proof fn lemma_text_consistent(tag: u16, text: Seq<char>, encoding: TextEncoding)
    requires
        vstd::utf8::encode_utf8(text).len() < u32::MAX,
    ensures
        consistent(text_entry(tag, text, encoding)),
{
    let e = text_entry(tag, text, encoding);
    assert(element_size(e.kind) == Some(1nat));
    assert(e.count * 1nat == e.value.len());
}

/// The entry that setting the orientation puts.
pub open spec fn orientation_to_put(
    entries: Seq<EntryView>,
    o: Orientation,
    order: ByteOrder,
) -> EntryView {
    match first_with(entries, TAG_ORIENTATION) {
        Some(e) => match uint_field(e.kind, o.code(), order) {
            Some(value) => with_uint(e, value),
            None => orientation_entry_view(o, order),
        },
        None => orientation_entry_view(o, order),
    }
}

/// Setting the orientation puts a consistent orientation entry.
pub proof fn lemma_orientation_to_put(d: Seq<EntryView>, o: Orientation, order: ByteOrder)
    ensures
        orientation_put(d, o, order) == put_entry(d, orientation_to_put(d, o, order)),
        orientation_to_put(d, o, order).tag == TAG_ORIENTATION,
        consistent(orientation_to_put(d, o, order)),
{
    lemma_first_index(d, TAG_ORIENTATION);
    let n = orientation_to_put(d, o, order);
    let size: nat = n.value.len();
    assert(element_size(n.kind) == Some(size));
    assert(n.count * size == size);
}

/// Setting text keeps a tree writable, where there is room for it.
pub proof fn law_set_text_keeps_encodable(v: ExifView, tag: u16, text: Seq<char>)
    requires
        v.encodable(),
        tag != TAG_EXIF_IFD,
        tag != TAG_GPS_IFD,
        vstd::utf8::encode_utf8(text).len() < u32::MAX,
        has_room(with_entry(v, text_entry(tag, text, v.text_encoding))),
    ensures
        with_entry(v, text_entry(tag, text, v.text_encoding)).encodable(),
{
    lemma_text_consistent(tag, text, v.text_encoding);
    law_put_keeps_encodable(v, text_entry(tag, text, v.text_encoding));
}

/// Setting the orientation keeps a tree writable, where there is room for it.
pub proof fn law_set_orientation_keeps_encodable(v: ExifView, o: Orientation)
    requires
        v.encodable(),
        has_room(ExifView { ifd0: orientation_put(v.ifd0, o, v.order), ..v }),
    ensures
        (ExifView { ifd0: orientation_put(v.ifd0, o, v.order), ..v }).encodable(),
{
    lemma_orientation_to_put(v.ifd0, o, v.order);
    law_put_keeps_encodable(v, orientation_to_put(v.ifd0, o, v.order));
}

/// The bytes by which text that was set reads back: those before its first NUL.
pub open spec fn shown(text: Seq<char>) -> Option<Seq<u8>> {
    let bytes = vstd::utf8::encode_utf8(text);
    let head = bytes.take(nul_index(bytes));
    if head.len() > 0 {
        Some(head)
    } else {
        None
    }
}

/// Text that was set is in what is written: parsing it gives the text back, up to
/// its first NUL, and every other text as it was.
pub proof fn law_written_text_reads_back(v: ExifView, tag: u16, text: Seq<char>, other: u16)
    requires
        v.encodable(),
        tag != TAG_EXIF_IFD,
        tag != TAG_GPS_IFD,
        tag != other,
        vstd::utf8::encode_utf8(text).len() < u32::MAX,
        has_room(with_entry(v, text_entry(tag, text, v.text_encoding))),
    ensures
        ({
            let w = with_entry(v, text_entry(tag, text, v.text_encoding));
            &&& parse_blob(w.blob_bytes()) matches Some(r)
            &&& text_of(r.ifd0, tag) == shown(text)
            &&& text_of(r.ifd0, other) == text_of(v.ifd0, other)
        }),
{
    let e = text_entry(tag, text, v.text_encoding);
    let w = with_entry(v, e);
    law_set_text_keeps_encodable(v, tag, text);
    law_round_trip(w);
    let r = parse_blob(w.blob_bytes())->0;
    law_canonical_form_reads_alike(w, r, tag, Category::Other);
    law_canonical_form_reads_alike(w, r, other, Category::Other);
    law_set_text_reads_back(v.ifd0, tag, text, v.text_encoding);
    law_put_keeps_others(v.ifd0, e, other);
}

/// An orientation that was set is in what is written: parsing it gives the
/// orientation back.
pub proof fn law_written_orientation_reads_back(v: ExifView, o: Orientation)
    requires
        v.encodable(),
        has_room(ExifView { ifd0: orientation_put(v.ifd0, o, v.order), ..v }),
    ensures
        ({
            let w = ExifView { ifd0: orientation_put(v.ifd0, o, v.order), ..v };
            &&& parse_blob(w.blob_bytes()) matches Some(r)
            &&& orientation_of(r.ifd0, r.order) == Some(o)
        }),
{
    let w = ExifView { ifd0: orientation_put(v.ifd0, o, v.order), ..v };
    law_set_orientation_keeps_encodable(v, o);
    law_round_trip(w);
    let r = parse_blob(w.blob_bytes())->0;
    law_canonical_form_reads_alike(w, r, TAG_ORIENTATION, Category::Other);
    law_set_orientation_reads_back(v.ifd0, o, v.order);
}

} // verus!
