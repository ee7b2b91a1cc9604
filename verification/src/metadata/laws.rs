//! What holds of filtered metadata.
use super::carried::{kept_exif, MetadataView};
use super::policy::MetadataPolicy;
use crate::exif::in_place::{
    law_in_place_reads_back, law_reorient_is_idempotent, lemma_rewritten_blob, rewritable,
};
use crate::exif::laws::{
    law_strip_drops_what_is_discarded, law_strip_is_idempotent, law_stripped_orientation_agrees,
};
use crate::exif::model::{first_with, parse_blob, tiff_of, uint_value};
use crate::exif::policy::{ExifPolicy, Retention};
use crate::exif::pruning::all_kept;
use crate::exif::retain::{reoriented, stripped, Outcome};
use crate::exif::tags::{TAG_ORIENTATION, TIFF_LONG, TIFF_SHORT};
use crate::helpers::{blob_orientation, blob_oriented};
use crate::orientation::Orientation;
use vstd::prelude::*;

verus! {

/// Whether the orientation value of a blob, where it has one, is apart from the
/// bytes that the blob's first directory is found by.
pub open spec fn has_settled_orientation(b: Seq<u8>) -> bool {
    parse_blob(b) matches Some(x) ==> (first_with(x.ifd0, TAG_ORIENTATION) matches Some(e) ==> (
    e.kind == TIFF_SHORT || e.kind == TIFF_LONG) ==> rewritable(tiff_of(b), x.order, e))
}

/// Whether a policy that keeps all of EXIF can make the tag of the blob agree
/// with the orientation field, if it does not do so already. A policy that
/// rewrites the blob always can.
pub open spec fn leaves_settled(m: MetadataView, policy: MetadataPolicy) -> bool {
    policy.resolved().exif == ExifPolicy::uniform(Retention::Keep) ==> (m.exif matches Some(b)
        ==> blob_orientation(b) == Some(m.orientation) || has_settled_orientation(b))
}

/// What keeping everything makes of a blob is left as it is, and agrees with the
/// orientation or declares none. A blob past the size of a TIFF stream passes
/// through.
proof fn lemma_kept_whole(b: Seq<u8>, want: Orientation)
    requires
        blob_orientation(b) == Some(want) || has_settled_orientation(b) || b.len() > u32::MAX,
    ensures
        kept_exif(Some(b), ExifPolicy::uniform(Retention::Keep), want) matches Some(c)
            && kept_exif(Some(c), ExifPolicy::uniform(Retention::Keep), want) == Some(c) && (
        b.len() <= u32::MAX || blob_orientation(b) == Some(want) ==> blob_orientation(c) == Some(
            want,
        ) || blob_orientation(c) is None),
{
    if b.len() <= u32::MAX && blob_orientation(b) != Some(want) {
        law_reorient_is_idempotent(b, want);
        if let Some(x) = parse_blob(b) {
            if let Some(e) = first_with(x.ifd0, TAG_ORIENTATION) {
                if blob_oriented(b, want) is Some {
                    if uint_value(e, x.order) is Some {
                        law_in_place_reads_back(b, x, e, want);
                    } else {
                        lemma_rewritten_blob(b, x, e, want);
                    }
                }
            }
        }
    }
}

/// What a rewriting policy leaves of a blob that policy leaves as it is, and so
/// does one that keeps everything; it agrees with the orientation or declares
/// none.
proof fn lemma_kept_again(src: Seq<u8>, p: ExifPolicy, want: Orientation)
    requires
        p != ExifPolicy::uniform(Retention::Keep),
    ensures
        kept_exif(Some(src), p, want) matches Some(c) ==> kept_exif(Some(c), p, want) == Some(c)
            && kept_exif(Some(c), ExifPolicy::uniform(Retention::Keep), want) == Some(c) && (
        blob_orientation(c) == Some(want) || blob_orientation(c) is None),
{
    if let Some(c) = kept_exif(Some(src), p, want) {
        assert(stripped(src, p, Some(want)) == Outcome::Rewritten(c));
        law_strip_is_idempotent(src, p, Some(want));
        law_stripped_orientation_agrees(src, p, want);
        assert(reoriented(c, want) == Outcome::Unchanged);
    }
}

/// Filtered metadata is final: embedding it, or filtering it by a policy that
/// keeps everything, changes nothing. Where all of EXIF is kept, the orientation
/// value must not overlap the bytes that it is found by, unless it agrees, or
/// the blob is past the size of a TIFF stream.
pub proof fn law_filtered_is_final(m: MetadataView, policy: MetadataPolicy)
    requires
        leaves_settled(m, policy) || (m.exif matches Some(b) && b.len() > u32::MAX),
    ensures
        m.filtered(policy).policy == MetadataPolicy::PreserveExact,
        m.filtered(policy).filtered(MetadataPolicy::PreserveExact) == m.filtered(policy),
{
    let r = m.filtered(policy);
    let p = policy.resolved().exif;
    if let Some(b) = m.exif {
        if p == ExifPolicy::uniform(Retention::Keep) {
            lemma_kept_whole(b, r.orientation);
        } else {
            lemma_kept_again(b, p, r.orientation);
        }
    }
    assert(r.filtered(MetadataPolicy::PreserveExact) =~= r);
}

/// Filtering twice by one policy is filtering once. Where all of EXIF is kept,
/// the orientation value must not overlap the bytes that it is found by, unless
/// it agrees, or the blob is past the size of a TIFF stream.
pub proof fn law_filtered_is_idempotent(m: MetadataView, policy: MetadataPolicy)
    requires
        leaves_settled(m, policy) || (m.exif matches Some(b) && b.len() > u32::MAX),
    ensures
        m.filtered(policy).filtered(policy) == m.filtered(policy),
{
    let r = m.filtered(policy);
    let p = policy.resolved().exif;
    if let Some(b) = m.exif {
        if p == ExifPolicy::uniform(Retention::Keep) {
            lemma_kept_whole(b, r.orientation);
        } else {
            lemma_kept_again(b, p, r.orientation);
        }
    }
    assert(r.filtered(policy) =~= r);
}

/// After filtering, an orientation that the EXIF blob declares is that of the
/// orientation field: no consumer rotates twice. Where all of EXIF is kept and
/// the tag does not agree already, its value must not overlap the bytes that it
/// is found by, and the blob must be within the size of a TIFF stream.
pub proof fn law_filtered_orientation_agrees(m: MetadataView, policy: MetadataPolicy)
    requires
        leaves_settled(m, policy),
        policy.resolved().exif == ExifPolicy::uniform(Retention::Keep) ==> (m.exif matches Some(b)
            ==> blob_orientation(b) == Some(m.orientation) || b.len() <= u32::MAX),
    ensures
        m.filtered(policy).exif matches Some(b) ==> (blob_orientation(b) matches Some(o) ==> o
            == m.filtered(policy).orientation),
{
    let p = policy.resolved().exif;
    let want = m.filtered(policy).orientation;
    if let Some(b) = m.exif {
        if p == ExifPolicy::uniform(Retention::Keep) {
            lemma_kept_whole(b, want);
        } else {
            lemma_kept_again(b, p, want);
        }
    }
}

/// A policy that discards anything of EXIF leaves a blob that parses and holds
/// only what the policy keeps, whatever the source held; or it leaves none.
pub proof fn law_filtered_is_private(m: MetadataView, policy: MetadataPolicy)
    requires
        policy.resolved().exif != ExifPolicy::uniform(Retention::Keep),
    ensures
        ({
            let p = policy.resolved().exif;
            m.filtered(policy).exif matches Some(c) ==> ({
                &&& parse_blob(c) matches Some(y)
                &&& all_kept(y.ifd0, p)
                &&& y.exif_ifd matches Some(d) ==> all_kept(d, p)
                &&& y.ifd1 matches Some(d) ==> all_kept(d, p)
                &&& p.gps == Retention::Discard ==> y.gps_ifd is None
                &&& p.thumbnail == Retention::Discard ==> y.thumbnail is None && y.ifd1 is None
            })
        }),
{
    let p = policy.resolved().exif;
    let want = m.filtered(policy).orientation;
    if let Some(b) = m.exif {
        law_strip_drops_what_is_discarded(b, p, Some(want));
    }
}

/// The default policy drops XMP, and keeps CICP and HDR signaling and the
/// orientation.
pub proof fn law_web_keeps_signaling(m: MetadataView)
    ensures
        ({
            let r = m.filtered(MetadataPolicy::Web);
            &&& r.xmp is None
            &&& r.cicp == m.cicp
            &&& r.content_light_level == m.content_light_level
            &&& r.mastering_display == m.mastering_display
            &&& r.orientation == m.orientation
        }),
{
}

/// Preserving exactly changes at most the orientation tag of the EXIF blob.
pub proof fn law_preserve_exact_changes_only_the_tag(m: MetadataView)
    ensures
        m.filtered(MetadataPolicy::PreserveExact) == (MetadataView {
            exif: match m.exif {
                Some(b) => match reoriented(b, m.orientation) {
                    Outcome::Rewritten(c) => Some(c),
                    _ => Some(b),
                },
                None => None,
            },
            policy: MetadataPolicy::PreserveExact,
            ..m
        }),
{
}

} // verus!
