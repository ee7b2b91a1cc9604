//! What each policy leaves of metadata, field by field and tag by tag.
use super::carried::{decoded_metadata, Metadata, MetadataView};
use super::laws::law_filtered_is_private;
use super::policy::{MetadataFields, MetadataPolicy};
use crate::bytes::shared_view;
use crate::exif::edit::{orientation_of, text_of};
use crate::exif::kept::law_strip_keeps_what_is_kept;
use crate::exif::model::{parse_blob, EntryView, ExifView};
use crate::exif::policy::{ExifPolicy, Retention};
use crate::exif::pruning::all_kept;
use crate::exif::retain::{retained, stripped, Outcome};
use crate::exif::tags::{
    law_camera_tags, law_datetime_tags, law_offset_bearing_tags, law_rights_tags,
};
use crate::icc::icc_identified_cicp;
use crate::info::ImageInfo;
use crate::orientation::Orientation;
use vstd::prelude::*;

verus! {

// ── Decoded metadata ────────────────────────────────────────────────────────

/// Nothing decoded is lost: what an image's info holds, its metadata holds, and
/// nothing else.
pub proof fn law_decoded_is_carried(info: ImageInfo)
    ensures
        decoded_metadata(info)@.xmp == shared_view(info.embedded_metadata.xmp),
        decoded_metadata(info)@.exif == shared_view(info.embedded_metadata.exif),
        decoded_metadata(info)@.icc_profile == shared_view(info.source_color.icc_profile),
        decoded_metadata(info)@.cicp == info.source_color.cicp,
        decoded_metadata(info)@.content_light_level == info.source_color.content_light_level,
        decoded_metadata(info)@.mastering_display == info.source_color.mastering_display,
        decoded_metadata(info)@.orientation == info.orientation,
        decoded_metadata(info)@.policy == MetadataPolicy::Web,
        <Metadata as vstd::std_specs::convert::FromSpec<&ImageInfo>>::from_spec(&info)
            == decoded_metadata(info),
        <Metadata as vstd::std_specs::convert::FromSpec<&ImageInfo>>::obeys_from_spec(),
{
}

/// A packet that was decoded is in the metadata, whatever else was: where an info
/// holds XMP, EXIF or an ICC profile, the metadata holds the same bytes.
pub proof fn law_decoded_bytes_are_carried(info: ImageInfo, x: Seq<u8>)
    ensures
        shared_view(info.embedded_metadata.xmp) == Some(x) ==> shared_view(
            decoded_metadata(info).xmp,
        ) == Some(x),
        shared_view(info.embedded_metadata.exif) == Some(x) ==> shared_view(
            decoded_metadata(info).exif,
        ) == Some(x),
        shared_view(info.source_color.icc_profile) == Some(x) ==> shared_view(
            decoded_metadata(info).icc_profile,
        ) == Some(x),
{
}

/// Decoded metadata is empty exactly if nothing was decoded and the orientation
/// is the identity.
pub proof fn law_decoded_emptiness(info: ImageInfo)
    ensures
        ({
            let m = decoded_metadata(info)@;
            m == (MetadataView { policy: m.policy, ..MetadataView::empty() })
        }) <==> info.embedded_metadata.xmp is None && info.embedded_metadata.exif is None
            && info.source_color.icc_profile is None && info.source_color.cicp is None
            && info.source_color.content_light_level is None
            && info.source_color.mastering_display is None && info.orientation
            == Orientation::Identity,
        ({
            let m = MetadataView::empty();
            &&& m.icc_profile is None
            &&& m.exif is None
            &&& m.xmp is None
            &&& m.cicp is None
            &&& m.content_light_level is None
            &&& m.mastering_display is None
            &&& m.orientation == Orientation::Identity
            &&& m.policy == MetadataPolicy::Web
        }),
{
}

// ── Fields ──────────────────────────────────────────────────────────────────

/// Whether a profile is one that is known to be sRGB: BT.709 primaries (1), the
/// sRGB curve (13), RGB (0), full range.
pub open spec fn known_srgb(icc: Seq<u8>) -> bool {
    icc_identified_cicp(icc) matches Some(c) && c.color_primaries == 1
        && c.transfer_characteristics == 13 && c.matrix_coefficients == 0 && c.full_range
}

/// Every policy but a custom one keeps CICP, HDR data and the orientation; those
/// that preserve keep XMP too, and the others drop it. Only an exact one keeps an
/// ICC profile that is known to be sRGB; all keep any other.
pub proof fn law_policies_by_field(m: MetadataView, policy: MetadataPolicy)
    requires
        !(policy is Custom),
    ensures
        m.filtered(policy).cicp == m.cicp,
        m.filtered(policy).content_light_level == m.content_light_level,
        m.filtered(policy).mastering_display == m.mastering_display,
        m.filtered(policy).orientation == m.orientation,
        policy is PreserveExact || policy is Preserve ==> m.filtered(policy).xmp == m.xmp,
        policy is Web || policy is ColorAndRotation ==> m.filtered(policy).xmp is None,
        policy is PreserveExact ==> m.filtered(policy).icc_profile == m.icc_profile,
        m.icc_profile matches Some(b) ==> (!known_srgb(b) ==> m.filtered(policy).icc_profile
            == Some(b)),
        m.icc_profile matches Some(b) ==> (known_srgb(b) && !(policy is PreserveExact)
            ==> m.filtered(policy).icc_profile is None),
        m.icc_profile is None ==> m.filtered(policy).icc_profile is None,
        m.exif is None ==> m.filtered(policy).exif is None,
        policy is PreserveExact || policy is Preserve ==> (m.filtered(policy).exif is Some
            <==> m.exif is Some),
{
}

/// Policies that preserve leave a blob as it is where its orientation agrees, or
/// where it declares none.
pub proof fn law_preserving_keeps_the_blob(m: MetadataView, policy: MetadataPolicy, b: Seq<u8>)
    requires
        policy is PreserveExact || policy is Preserve,
        m.exif == Some(b),
        parse_blob(b) matches Some(x) ==> orientation_of(x.ifd0, x.order) == Some(m.orientation)
            || (forall|i: int| 0 <= i < x.ifd0.len() ==> (#[trigger] x.ifd0[i]).tag != 0x0112),
    ensures
        m.filtered(policy).exif == Some(b),
{
    if let Some(x) = parse_blob(b) {
        crate::exif::tree::lemma_first_index(x.ifd0, 0x0112);
    }
}

/// A custom policy treats every field as it says, and each apart from the others.
pub proof fn law_custom_by_field(m: MetadataView, f: MetadataFields)
    ensures
        ({
            let r = m.filtered(MetadataPolicy::Custom(f));
            &&& f.xmp == Retention::Keep ==> r.xmp == m.xmp
            &&& f.xmp == Retention::Discard ==> r.xmp is None
            &&& f.cicp == Retention::Keep ==> r.cicp == m.cicp
            &&& f.cicp == Retention::Discard ==> r.cicp is None
            &&& f.hdr == Retention::Keep ==> r.content_light_level == m.content_light_level
                && r.mastering_display == m.mastering_display
            &&& f.hdr == Retention::Discard ==> r.content_light_level is None
                && r.mastering_display is None
            &&& f.exif.orientation == Retention::Keep ==> r.orientation == m.orientation
            &&& f.exif.orientation == Retention::Discard ==> r.orientation == Orientation::Identity
            &&& f.icc is Drop ==> r.icc_profile is None
            &&& !(f.icc is Drop) ==> (m.icc_profile matches Some(b) ==> (!known_srgb(b)
                || !(f.icc is KeepNonSrgb) ==> r.icc_profile == Some(b)))
            &&& f.icc is KeepNonSrgb ==> (m.icc_profile matches Some(b) ==> (known_srgb(b)
                ==> r.icc_profile is None))
            &&& m.icc_profile is None ==> r.icc_profile is None
            &&& m.exif is None ==> r.exif is None
            &&& ({
                &&& f.exif.orientation == Retention::Discard
                &&& f.exif.rights == Retention::Discard
                &&& f.exif.thumbnail == Retention::Discard
                &&& f.exif.gps == Retention::Discard
                &&& f.exif.datetimes == Retention::Discard
                &&& f.exif.camera == Retention::Discard
                &&& f.exif.other == Retention::Discard
            }) ==> r.exif is None
            &&& r.policy is PreserveExact
        }),
{
}

// ── Tags ────────────────────────────────────────────────────────────────────

/// Whether a tag names who made the image or holds rights in it: Copyright,
/// Artist, CameraOwnerName, Photographer, ImageEditor.
pub open spec fn names_a_right(tag: u16) -> bool {
    tag == 0x8298 || tag == 0x013B || tag == 0xA430 || tag == 0xA437 || tag == 0xA438
}

/// Whether a tag is a timestamp, its time zone or its fraction.
pub open spec fn tells_time(tag: u16) -> bool {
    tag == 0x0132 || tag == 0x9003 || tag == 0x9004 || 0x9010 <= tag <= 0x9012 || 0x9290 <= tag
        <= 0x9292
}

/// Whether a tag identifies a device or software.
pub open spec fn tells_of_the_camera(tag: u16) -> bool {
    tag == 0x010F || tag == 0x0110 || tag == 0x0131 || tag == 0x013C || tag == 0x927C || tag
        == 0xA420 || 0xA431 <= tag <= 0xA435 || 0xA439 <= tag <= 0xA43C
}

/// Whether the value of a tag locates other bytes of the file.
pub open spec fn locates_bytes(tag: u16) -> bool {
    tag == 0x014A || tag == 0x8769 || tag == 0x8825 || tag == 0xA005 || tag == 0x0201 || tag
        == 0x0202 || tag == 0x0111 || tag == 0x0117 || tag == 0x0144 || tag == 0x0145
}

/// A rewrite carries a tag exactly if its category is kept and its value does not
/// locate other bytes; of the camera's tags it never carries the maker note.
pub proof fn law_carried_tags(p: ExifPolicy, tag: u16)
    ensures
        p.keeps_tag(tag) <==> ({
            &&& !locates_bytes(tag)
            &&& tag != 0x927C
            &&& tag == 0x0112 ==> p.orientation == Retention::Keep
            &&& names_a_right(tag) ==> p.rights == Retention::Keep
            &&& tells_time(tag) ==> p.datetimes == Retention::Keep
            &&& tells_of_the_camera(tag) ==> p.camera == Retention::Keep
            &&& tag != 0x0112 && !names_a_right(tag) && !tells_time(tag) && !tells_of_the_camera(
                tag,
            ) ==> p.other == Retention::Keep
        }),
{
    law_rights_tags(tag);
    law_datetime_tags(tag);
    law_camera_tags(tag);
    law_offset_bearing_tags(tag);
}

/// A policy that discards a category of EXIF leaves none of its tags in any
/// directory; nor a tag that locates bytes, nor a maker note. Discarding location
/// leaves no GPS directory, and discarding thumbnails neither a thumbnail nor its
/// directory.
pub proof fn law_custom_leaves_no_discarded_tag(
    m: MetadataView,
    f: MetadataFields,
    c: Seq<u8>,
    y: ExifView,
    e: EntryView,
)
    requires
        !({
            &&& f.exif.orientation == Retention::Keep
            &&& f.exif.rights == Retention::Keep
            &&& f.exif.thumbnail == Retention::Keep
            &&& f.exif.gps == Retention::Keep
            &&& f.exif.datetimes == Retention::Keep
            &&& f.exif.camera == Retention::Keep
            &&& f.exif.other == Retention::Keep
        }),
        m.filtered(MetadataPolicy::Custom(f)).exif == Some(c),
        parse_blob(c) == Some(y),
        y.ifd0.contains(e) || (y.exif_ifd matches Some(d) && d.contains(e)) || (
        y.ifd1 matches Some(d) && d.contains(e)),
    ensures
        !locates_bytes(e.tag),
        e.tag != 0x927C,
        f.exif.orientation == Retention::Discard ==> e.tag != 0x0112,
        f.exif.rights == Retention::Discard ==> !names_a_right(e.tag),
        f.exif.datetimes == Retention::Discard ==> !tells_time(e.tag),
        f.exif.camera == Retention::Discard ==> !tells_of_the_camera(e.tag),
        f.exif.other == Retention::Discard ==> e.tag == 0x0112 || names_a_right(e.tag)
            || tells_time(e.tag) || tells_of_the_camera(e.tag),
        f.exif.gps == Retention::Discard ==> y.gps_ifd is None,
        f.exif.thumbnail == Retention::Discard ==> y.thumbnail is None && y.ifd1 is None,
{
    law_filtered_is_private(m, MetadataPolicy::Custom(f));
    law_carried_tags(f.exif, e.tag);
    assert(f.exif.keeps_tag(e.tag)) by {
        lemma_member_kept(y, f.exif, e);
    }
}

/// An entry of a directory whose tags are all kept has a kept tag.
proof fn lemma_member_kept(y: ExifView, p: ExifPolicy, e: EntryView)
    requires
        all_kept(y.ifd0, p),
        y.exif_ifd matches Some(d) ==> all_kept(d, p),
        y.ifd1 matches Some(d) ==> all_kept(d, p),
        y.ifd0.contains(e) || (y.exif_ifd matches Some(d) && d.contains(e)) || (
        y.ifd1 matches Some(d) && d.contains(e)),
    ensures
        p.keeps_tag(e.tag),
{
}

/// What the default policy leaves parses, and holds no entry in any directory but
/// orientation, copyright, artist, camera owner, photographer and image editor;
/// no GPS directory and no thumbnail.
pub proof fn law_web_leaves_only_rights(m: MetadataView, c: Seq<u8>)
    requires
        m.filtered(MetadataPolicy::Web).exif == Some(c),
    ensures
        parse_blob(c) is Some,
        ({
            let y = parse_blob(c)->0;
            &&& forall|i: int|
                0 <= i < y.ifd0.len() ==> (#[trigger] y.ifd0[i]).tag == 0x0112 || names_a_right(
                    y.ifd0[i].tag,
                )
            &&& y.exif_ifd matches Some(d) ==> forall|i: int|
                0 <= i < d.len() ==> (#[trigger] d[i]).tag == 0x0112 || names_a_right(d[i].tag)
            &&& y.gps_ifd is None
            &&& y.ifd1 is None
            &&& y.thumbnail is None
        }),
{
    law_filtered_is_private(m, MetadataPolicy::Web);
    let y = parse_blob(c)->0;
    let p = ExifPolicy::attributed_orientation();
    assert forall|tag: u16| #[trigger] p.keeps_tag(tag) implies tag == 0x0112 || names_a_right(
        tag,
    ) by {
        law_carried_tags(p, tag);
    }
}

/// What rotation and color alone leave parses, and holds no entry in any directory
/// but orientation; no GPS directory and no thumbnail.
pub proof fn law_rotation_leaves_only_orientation(m: MetadataView, c: Seq<u8>)
    requires
        m.filtered(MetadataPolicy::ColorAndRotation).exif == Some(c),
    ensures
        parse_blob(c) is Some,
        ({
            let y = parse_blob(c)->0;
            &&& forall|i: int| 0 <= i < y.ifd0.len() ==> (#[trigger] y.ifd0[i]).tag == 0x0112
            &&& y.exif_ifd matches Some(d) ==> forall|i: int|
                0 <= i < d.len() ==> (#[trigger] d[i]).tag == 0x0112
            &&& y.gps_ifd is None
            &&& y.ifd1 is None
            &&& y.thumbnail is None
        }),
{
    law_filtered_is_private(m, MetadataPolicy::ColorAndRotation);
    let y = parse_blob(c)->0;
    let p = ExifPolicy::orientation_only();
    assert forall|tag: u16| #[trigger] p.keeps_tag(tag) implies tag == 0x0112 by {
        law_carried_tags(p, tag);
    }
}

/// What rewriting a blob would leave, before it is weighed against the source.
proof fn lemma_rewritten(src: Seq<u8>, x: ExifView, p: ExifPolicy, want: Orientation)
    requires
        src.len() <= u32::MAX,
        parse_blob(src) == Some(x),
        !x.prepared(p, Some(want)).is_bare(),
        x.prepared(p, Some(want)).blob_len() <= 2 * src.len() + 1024,
        x.prepared(p, Some(want)).blob_len() <= u32::MAX,
    ensures
        stripped(src, p, Some(want)) is Rewritten,
{
}

/// The default policy loses no name: where a blob parses and its first directory
/// names a right or holds an orientation, a blob is left, with the same copyright,
/// artist and other such texts, and with the orientation field's value where it
/// had one. (A rewrite that would be larger than twice the source and a kilobyte,
/// or than a TIFF stream, is left out.)
pub proof fn law_web_keeps_rights(m: MetadataView, src: Seq<u8>, x: ExifView, i: int, tag: u16)
    requires
        m.exif == Some(src),
        src.len() <= u32::MAX,
        parse_blob(src) == Some(x),
        0 <= i < x.ifd0.len(),
        x.ifd0[i].tag == 0x0112 || names_a_right(x.ifd0[i].tag),
        ({
            let n = x.prepared(
                ExifPolicy::attributed_orientation(),
                Some(m.orientation),
            ).blob_len();
            n <= 2 * src.len() + 1024 && n <= u32::MAX
        }),
        names_a_right(tag),
    ensures
        m.filtered(MetadataPolicy::Web).exif matches Some(c) && parse_blob(c) matches Some(y)
            && text_of(y.ifd0, tag) == text_of(x.ifd0, tag) && (orientation_of(x.ifd0, x.order) is Some
            ==> orientation_of(y.ifd0, y.order) == Some(m.orientation)),
{
    let p = ExifPolicy::attributed_orientation();
    law_carried_tags(p, tag);
    law_carried_tags(p, x.ifd0[i].tag);
    let d = crate::exif::edit::pruned(x.ifd0, p);
    x.ifd0.lemma_filter_contains(|e: EntryView| p.keeps_tag(e.tag), i);
    assert(d.len() > 0);
    lemma_reconciled_len(d, m.orientation, x.order);
    lemma_rewritten(src, x, p, m.orientation);
    law_strip_keeps_what_is_kept(src, p, Some(m.orientation), tag);
}

/// Reconciling the orientation keeps the number of entries.
proof fn lemma_reconciled_len(
    d: Seq<EntryView>,
    o: Orientation,
    order: crate::exif::codec::ByteOrder,
)
    ensures
        crate::exif::edit::orientation_reconciled(d, o, order).len() == d.len(),
{
    crate::exif::tree::lemma_first_index(d, 0x0112);
}

/// What a custom policy makes of a blob is what its EXIF policy makes of it, with
/// the orientation that is left: the field's where orientation is kept, else the
/// identity.
pub proof fn law_custom_blob(m: MetadataView, f: MetadataFields, src: Seq<u8>, want: Orientation)
    requires
        m.exif == Some(src),
        f.exif.orientation == Retention::Keep ==> want == m.orientation,
        f.exif.orientation == Retention::Discard ==> want == Orientation::Identity,
    ensures
        retained(src, f.exif, Some(want)) == Outcome::Dropped ==> m.filtered(
            MetadataPolicy::Custom(f),
        ).exif is None,
        retained(src, f.exif, Some(want)) == Outcome::Unchanged ==> m.filtered(
            MetadataPolicy::Custom(f),
        ).exif == Some(src),
        retained(src, f.exif, Some(want)) matches Outcome::Rewritten(b) ==> m.filtered(
            MetadataPolicy::Custom(f),
        ).exif == Some(b),
{
}

/// Each policy is a custom one: its fields.
pub proof fn law_policies_are_fields(policy: MetadataPolicy)
    ensures
        ({
            let f = policy.resolved();
            let preserves = policy is PreserveExact || policy is Preserve;
            let p = f.exif;
            &&& policy matches MetadataPolicy::Custom(g) ==> f == g
            &&& !(policy is Custom) ==> f.cicp == Retention::Keep && f.hdr == Retention::Keep
                && p.orientation == Retention::Keep
            &&& policy is PreserveExact ==> f.icc is Keep
            &&& policy is Preserve || policy is Web || policy is ColorAndRotation
                ==> f.icc is KeepNonSrgb
            &&& preserves ==> f.xmp == Retention::Keep && p.rights == Retention::Keep && p.gps
                == Retention::Keep && p.thumbnail == Retention::Keep && p.datetimes
                == Retention::Keep && p.camera == Retention::Keep && p.other == Retention::Keep
            &&& policy is Web ==> p.rights == Retention::Keep
            &&& policy is ColorAndRotation ==> p.rights == Retention::Discard
            &&& policy is Web || policy is ColorAndRotation ==> f.xmp == Retention::Discard && p.gps
                == Retention::Discard && p.thumbnail == Retention::Discard && p.datetimes
                == Retention::Discard && p.camera == Retention::Discard && p.other
                == Retention::Discard
        }),
{
}

/// Filtering by a policy is filtering by its fields, and what it leaves is not
/// filtered any further: its own policy keeps everything.
pub proof fn law_filtering_goes_by_fields(m: MetadataView, policy: MetadataPolicy)
    ensures
        m.filtered(policy) == m.filtered(MetadataPolicy::Custom(policy.resolved())),
        m.filtered(policy).policy is PreserveExact,
        m.filtered(policy).policy.resolved().icc is Keep,
        m.filtered(policy).policy.resolved().xmp == Retention::Keep,
{
}

/// The policy that metadata carries does not change what another leaves of it.
pub proof fn law_own_policy_is_no_matter(m: MetadataView, own: MetadataPolicy, policy: MetadataPolicy)
    ensures
        (MetadataView { policy: own, ..m }).filtered(policy) == m.filtered(policy),
{
}

} // verus!
