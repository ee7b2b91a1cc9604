//! What a policy makes of a blob and of a tree, case by case.
use super::authoring::empty_tree;
use super::codec::ByteOrder;
use super::edit::{orientation_of, orientation_reconciled, pruned};
use super::model::{parse_blob, EntryView, ExifView, TextEncoding};
use super::parsed::comes_first;
use super::policy::{ExifPolicy, Retention};
use super::retain::{carries_out, lemma_orientation_inside, oriented_in_place, retained, Outcome};
use super::tags::Category;
use super::tree::lemma_first_index;
use super::roundtrip::law_serialized_len;
use crate::orientation::Orientation;
use std::borrow::Cow;
use vstd::prelude::*;

verus! {

broadcast use {super::codec::lemma_bytes16_len, super::codec::lemma_bytes32_len};

/// Whether every category has one retention.
pub open spec fn all_alike(p: ExifPolicy, r: Retention) -> bool {
    p.orientation == r && p.rights == r && p.thumbnail == r && p.gps == r && p.datetimes == r
        && p.camera == r && p.other == r
}

/// A policy that discards everything leaves no blob.
pub proof fn law_discarding_all_drops(src: Seq<u8>, p: ExifPolicy, want: Option<Orientation>)
    requires
        all_alike(p, Retention::Discard),
    ensures
        retained(src, p, want) == Outcome::Dropped,
{
}

/// A policy that keeps everything leaves a blob as it is, byte for byte, where no
/// orientation is asked for, the blob does not parse, it declares the orientation
/// already, or it has no integer entry for one.
pub proof fn law_keeping_all_passes(src: Seq<u8>, p: ExifPolicy, o: Orientation, j: int)
    requires
        all_alike(p, Retention::Keep),
    ensures
        retained(src, p, None) == Outcome::Unchanged,
        parse_blob(src) is None ==> retained(src, p, Some(o)) == Outcome::Unchanged,
        parse_blob(src) matches Some(x) ==> (orientation_of(x.ifd0, x.order) == Some(o)
            ==> retained(src, p, Some(o)) == Outcome::Unchanged),
        parse_blob(src) matches Some(x) ==> ((forall|i: int|
            0 <= i < x.ifd0.len() ==> (#[trigger] x.ifd0[i]).tag != 0x0112) ==> retained(
            src,
            p,
            Some(o),
        ) == Outcome::Unchanged),
        parse_blob(src) matches Some(x) ==> (comes_first(x.ifd0, 0x0112, j) && x.ifd0[j].kind != 3
            && x.ifd0[j].kind != 4 ==> retained(src, p, Some(o)) == Outcome::Unchanged),
{
    if let Some(x) = parse_blob(src) {
        lemma_first_index(x.ifd0, 0x0112);
    }
}

/// The bytes of an orientation's number.
proof fn lemma_code_bytes(o: Orientation, order: ByteOrder)
    ensures
        ({
            let s = super::codec::bytes16(o.code() as u16, order);
            let l = super::codec::bytes32(o.code() as u32, order);
            &&& s.len() == 2 && l.len() == 4
            &&& order == ByteOrder::Big ==> s[0] == 0 && s[1] == o.code() && l[0] == 0 && l[1] == 0
                && l[2] == 0 && l[3] == o.code()
            &&& order == ByteOrder::Little ==> s[0] == o.code() && s[1] == 0 && l[0] == o.code()
                && l[1] == 0 && l[2] == 0 && l[3] == 0
        }),
{
    reveal(super::codec::bytes16);
    reveal(super::codec::bytes32);
    let code = o.code();
    assert(1 <= code <= 8);
}

/// Where the value of the first orientation entry of a blob stands.
proof fn lemma_value_place(src: Seq<u8>, x: ExifView, j: int)
    requires
        parse_blob(src) == Some(x),
        comes_first(x.ifd0, 0x0112, j),
    ensures
        super::model::first_with(x.ifd0, 0x0112) == Some(x.ifd0[j]),
        super::retain::orientation_offset(x) == x.ifd0[j].offset + (if x.had_prefix {
            6int
        } else {
            0
        }),
        super::retain::orientation_offset(x) + 4 <= src.len(),
{
    lemma_first_index(x.ifd0, 0x0112);
    lemma_orientation_inside(src);
    super::provenance::lemma_parsed_tree(src);
    assert(super::provenance::read_from(x.ifd0[j], super::model::tiff_of(src)));
}

/// Bytes written over others.
proof fn lemma_overwritten(src: Seq<u8>, at: int, value: Seq<u8>, i: int)
    requires
        0 <= at,
        at + value.len() <= src.len(),
        0 <= i < src.len(),
    ensures
        super::retain::overwritten(src, at, value).len() == src.len(),
        at <= i < at + value.len() ==> super::retain::overwritten(src, at, value)[i] == value[i
            - at],
        i < at || i >= at + value.len() ==> super::retain::overwritten(src, at, value)[i] == src[i],
{
}

/// Setting the orientation in place writes the value of the first 0x0112 entry where
/// it stands, behind the marker if there is one: two bytes of a SHORT (3) or four of
/// a LONG (4). No other byte changes.
pub proof fn law_in_place_sets_the_value(
    src: Seq<u8>,
    x: ExifView,
    o: Orientation,
    j: int,
    i: int,
)
    requires
        parse_blob(src) == Some(x),
        comes_first(x.ifd0, 0x0112, j),
        x.ifd0[j].kind == 3 || x.ifd0[j].kind == 4,
        0 <= i < src.len(),
    ensures
        oriented_in_place(src, x, o) matches Some(b) && b.len() == src.len() && ({
            let at = x.ifd0[j].offset + (if x.had_prefix { 6int } else { 0 });
            let width: int = if x.ifd0[j].kind == 3 { 2 } else { 4 };
            let last = if x.order == ByteOrder::Big { at + width - 1 } else { at };
            &&& i < at || i >= at + width ==> b[i] == src[i]
            &&& i == last ==> b[i] == o.code()
            &&& at <= i < at + width && i != last ==> b[i] == 0
        }),
{
    lemma_value_place(src, x, j);
    lemma_code_bytes(o, x.order);
    let value = super::edit::uint_field(x.ifd0[j].kind, o.code(), x.order)->0;
    lemma_overwritten(src, super::retain::orientation_offset(x), value, i);
}

/// Where the orientation differs, a policy that keeps everything rewrites the value
/// of the first 0x0112 entry where it stands, behind the marker if there is one:
/// two bytes of a SHORT (3) or four of a LONG (4). No other byte changes.
pub proof fn law_keeping_all_sets_the_value(
    src: Seq<u8>,
    p: ExifPolicy,
    x: ExifView,
    o: Orientation,
    j: int,
    i: int,
)
    requires
        all_alike(p, Retention::Keep),
        src.len() <= u32::MAX,
        parse_blob(src) == Some(x),
        comes_first(x.ifd0, 0x0112, j),
        x.ifd0[j].kind == 3 || x.ifd0[j].kind == 4,
        orientation_of(x.ifd0, x.order) != Some(o),
        0 <= i < src.len(),
    ensures
        retained(src, p, Some(o)) matches Outcome::Rewritten(b) && b.len() == src.len() && ({
            let at = x.ifd0[j].offset + (if x.had_prefix { 6int } else { 0 });
            let width: int = if x.ifd0[j].kind == 3 { 2 } else { 4 };
            let last = if x.order == ByteOrder::Big { at + width - 1 } else { at };
            &&& i < at || i >= at + width ==> b[i] == src[i]
            &&& i == last ==> b[i] == o.code()
            &&& at <= i < at + width && i != last ==> b[i] == 0
        }),
{
    law_in_place_sets_the_value(src, x, o, j, i);
}

/// A policy that keeps some categories and discards others leaves nothing of a
/// blob that does not parse, or of one past the size of a TIFF stream.
pub proof fn law_unreadable_is_dropped(src: Seq<u8>, p: ExifPolicy, want: Option<Orientation>)
    requires
        !all_alike(p, Retention::Keep),
        parse_blob(src) is None || src.len() > u32::MAX,
    ensures
        retained(src, p, want) == Outcome::Dropped,
{
}

/// Such a policy writes what is left of the tree, unless nothing is, or it would
/// take more than twice the source and a kilobyte, or more than a TIFF stream.
pub proof fn law_what_is_left_is_written(
    src: Seq<u8>,
    p: ExifPolicy,
    want: Option<Orientation>,
    x: ExifView,
)
    requires
        !all_alike(p, Retention::Keep),
        !all_alike(p, Retention::Discard),
        src.len() <= u32::MAX,
        parse_blob(src) == Some(x),
    ensures
        ({
            let left = x.prepared(p, want);
            let empty = left.ifd0.len() == 0 && left.exif_ifd is None && left.gps_ifd is None
                && left.ifd1 is None;
            let n = left.blob_bytes().len();
            let large = n > 2 * src.len() + 1024 || n > 0xFFFF_FFFF;
            &&& empty || large ==> retained(src, p, want) == Outcome::Dropped
            &&& !empty && !large ==> retained(src, p, want) == Outcome::Rewritten(
                left.blob_bytes(),
            )
        }),
{
    law_serialized_len(x.prepared(p, want));
}

/// What is left of a tree: in the first, Exif and thumbnail directories the entries
/// that are kept, in order; the GPS directory and the thumbnail as they are, or
/// not at all; an Exif directory only with entries. Byte order, framing and text
/// encoding stay.
pub proof fn law_pruned_tree(x: ExifView, p: ExifPolicy)
    ensures
        ({
            let r = x.pruned(p);
            let carried = |e: EntryView| p.keeps_tag(e.tag);
            &&& r.ifd0 == x.ifd0.filter(carried)
            &&& r.exif_ifd matches Some(d) ==> d.len() > 0 && (x.exif_ifd matches Some(s) && d
                == s.filter(carried))
            &&& x.exif_ifd matches Some(s) ==> (s.filter(carried).len() > 0 ==> r.exif_ifd is Some)
            &&& p.gps == Retention::Keep ==> r.gps_ifd == x.gps_ifd
            &&& p.gps == Retention::Discard ==> r.gps_ifd is None
            &&& p.thumbnail == Retention::Keep ==> r.thumbnail == x.thumbnail && (r.ifd1 is Some
                <==> x.ifd1 is Some)
            &&& p.thumbnail == Retention::Keep ==> (x.ifd1 matches Some(s) ==> r.ifd1 == Some(
                s.filter(carried),
            ))
            &&& p.thumbnail == Retention::Discard ==> r.thumbnail is None && r.ifd1 is None
            &&& r.order == x.order
            &&& r.had_prefix == x.had_prefix
            &&& r.text_encoding == x.text_encoding
        }),
{
}

/// Asking for an orientation changes only the first directory of what is left.
pub proof fn law_prepared_tree(x: ExifView, p: ExifPolicy, o: Orientation)
    ensures
        x.prepared(p, None) == x.pruned(p),
        x.prepared(p, Some(o)).ifd0 == orientation_reconciled(x.pruned(p).ifd0, o, x.order),
        x.prepared(p, Some(o)) == (ExifView {
            ifd0: x.prepared(p, Some(o)).ifd0,
            ..x.pruned(p)
        }),
{
}

/// Setting the orientation of a blob in place needs an entry 0x0112 of type SHORT
/// (3) or LONG (4).
pub proof fn law_in_place_needs_an_integer(src: Seq<u8>, x: ExifView, o: Orientation, j: int)
    ensures
        comes_first(x.ifd0, 0x0112, j) ==> (oriented_in_place(src, x, o) is Some <==> x.ifd0[j].kind
            == 3 || x.ifd0[j].kind == 4),
        (forall|i: int| 0 <= i < x.ifd0.len() ==> (#[trigger] x.ifd0[i]).tag != 0x0112)
            ==> oriented_in_place(src, x, o) is None,
{
    lemma_first_index(x.ifd0, 0x0112);
}

/// A tree has camera data or timestamps exactly if its first or its Exif directory
/// holds one of their tags.
pub proof fn law_categories_are_found(x: ExifView, c: Category)
    ensures
        x.holds_category(c) <==> (exists|i: int|
            0 <= i < x.ifd0.len() && super::tags::category_of((#[trigger] x.ifd0[i]).tag) == c) || (
        x.exif_ifd matches Some(d) && exists|i: int|
            0 <= i < d.len() && super::tags::category_of((#[trigger] d[i]).tag) == c),
{
}

/// The presets: orientation and rights, orientation alone, all alike.
pub proof fn law_preset_categories(r: Retention)
    ensures
        all_alike(ExifPolicy::uniform(r), r),
        ({
            let p = ExifPolicy::attributed_orientation();
            &&& p.orientation == Retention::Keep
            &&& p.rights == Retention::Keep
            &&& p.thumbnail == Retention::Discard
            &&& p.gps == Retention::Discard
            &&& p.datetimes == Retention::Discard
            &&& p.camera == Retention::Discard
            &&& p.other == Retention::Discard
        }),
        ({
            let p = ExifPolicy::orientation_only();
            &&& p.orientation == Retention::Keep
            &&& p.rights == Retention::Discard
            &&& p.thumbnail == Retention::Discard
            &&& p.gps == Retention::Discard
            &&& p.datetimes == Retention::Discard
            &&& p.camera == Retention::Discard
            &&& p.other == Retention::Discard
        }),
{
}

/// A policy answers for each category with its own retention.
pub proof fn law_categories_apart(p: ExifPolicy)
    ensures
        p.of_category(Category::Orientation) == p.orientation,
        p.of_category(Category::Rights) == p.rights,
        p.of_category(Category::Datetimes) == p.datetimes,
        p.of_category(Category::Camera) == p.camera,
        p.of_category(Category::Other) == p.other,
{
}

/// A new tree is little-endian, without the marker, and holds nothing.
pub proof fn law_new_tree(encoding: TextEncoding)
    ensures
        ({
            let v = empty_tree(encoding);
            &&& v.order == ByteOrder::Little
            &&& !v.had_prefix
            &&& v.ifd0.len() == 0
            &&& v.exif_ifd is None
            &&& v.gps_ifd is None
            &&& v.ifd1 is None
            &&& v.thumbnail is None
            &&& v.text_encoding == encoding
        }),
{
}

/// What is handed out: nothing where the blob is dropped, the source borrowed where
/// it passes, and new bytes where it is rewritten.
pub proof fn law_outcomes_are_carried_out(
    r: Option<Cow<'_, [u8]>>,
    src: Seq<u8>,
    b: Seq<u8>,
)
    ensures
        carries_out(r, src, Outcome::Dropped) <==> r is None,
        carries_out(r, src, Outcome::Unchanged) <==> (r matches Some(c) && c is Borrowed && c@
            == src),
        carries_out(r, src, Outcome::Rewritten(b)) <==> (r matches Some(c) && c is Owned && c@ == b),
{
}

} // verus!
