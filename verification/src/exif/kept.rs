//! What a policy keeps survives pruning and stripping.
use super::codec::ByteOrder;
use super::edit::{orientation_of, orientation_reconciled, pruned, text_of, uint_field, with_uint};
use super::laws::{
    law_canonical_form_reads_alike, law_put_is_first, law_put_keeps_others, law_round_trip,
};
use super::model::{first_with, parse_blob, uint_value, EntryView, ExifView};
use super::policy::{ExifPolicy, Retention};
use super::pruning::{law_prepared_is_encodable, lemma_prepared_fits};
use super::retain::{stripped, Outcome};
use super::roundtrip::{is_tag, law_serialized_len, lemma_first_of_tag};
use super::tags::{Category, TAG_ORIENTATION};
use crate::orientation::{lemma_orientation_codes, Orientation};
use vstd::prelude::*;

verus! {

broadcast use {super::codec::lemma_bytes16_len, super::codec::lemma_bytes32_len};

/// Pruning keeps the entries of a kept tag.
proof fn lemma_prune_keeps_tag(d: Seq<EntryView>, policy: ExifPolicy, tag: u16)
    requires
        policy.keeps_tag(tag),
    ensures
        pruned(d, policy).filter(is_tag(tag)) == d.filter(is_tag(tag)),
        first_with(pruned(d, policy), tag) == first_with(d, tag),
    decreases d.len(),
{
    reveal(Seq::filter);
    if d.len() > 0 {
        let q = |e: EntryView| policy.keeps_tag(e.tag);
        lemma_prune_keeps_tag(d.drop_last(), policy, tag);
        let f = d.drop_last().filter(q);
        if q(d.last()) {
            assert(f.push(d.last()).drop_last() =~= f);
        }
    }
    lemma_first_of_tag(d, tag);
    lemma_first_of_tag(pruned(d, policy), tag);
}

/// Pruning keeps what the policy keeps: the entries of a kept tag, unchanged and
/// in order, the GPS directory, and the thumbnail.
pub proof fn law_prune_keeps_what_is_kept(x: ExifView, policy: ExifPolicy, tag: u16)
    requires
        policy.keeps_tag(tag),
    ensures
        x.pruned(policy).ifd0.filter(is_tag(tag)) == x.ifd0.filter(is_tag(tag)),
        x.exif_ifd matches Some(d) ==> (match x.pruned(policy).exif_ifd {
            Some(r) => r.filter(is_tag(tag)) == d.filter(is_tag(tag)),
            None => d.filter(is_tag(tag)).len() == 0,
        }),
        policy.gps == Retention::Keep ==> x.pruned(policy).gps_ifd == x.gps_ifd,
        policy.thumbnail == Retention::Keep ==> x.pruned(policy).thumbnail == x.thumbnail && (
        x.ifd1 matches Some(d) ==> x.pruned(policy).ifd1 matches Some(r) && r.filter(is_tag(tag))
            == d.filter(is_tag(tag))),
{
    lemma_prune_keeps_tag(x.ifd0, policy, tag);
    if let Some(d) = x.exif_ifd {
        lemma_prune_keeps_tag(d, policy, tag);
        if pruned(d, policy).len() == 0 {
            reveal(Seq::filter);
            assert(pruned(d, policy).filter(is_tag(tag)).len() == 0);
        }
    }
    if let Some(d) = x.ifd1 {
        lemma_prune_keeps_tag(d, policy, tag);
    }
}

/// Reconciling the orientation keeps the other tags, and sets an orientation that
/// could be read.
proof fn lemma_reconciled_first(d: Seq<EntryView>, o: Orientation, order: ByteOrder, tag: u16)
    ensures
        tag != TAG_ORIENTATION ==> first_with(orientation_reconciled(d, o, order), tag)
            == first_with(d, tag),
        orientation_of(d, order) is Some ==> orientation_of(
            orientation_reconciled(d, o, order),
            order,
        ) == Some(o),
{
    if let Some(e) = first_with(d, TAG_ORIENTATION) {
        super::tree::lemma_first_index(d, TAG_ORIENTATION);
        if let Some(value) = uint_field(e.kind, o.code(), order) {
            let n = with_uint(e, value);
            if tag != TAG_ORIENTATION {
                law_put_keeps_others(d, n, tag);
            }
            law_put_is_first(d, n);
            lemma_orientation_codes(o, 0);
            super::codec::lemma_bytes16_reads_back(o.code() as u16, order);
            super::codec::lemma_bytes32_reads_back(o.code() as u32, order);
            assert(uint_value(n, order) == Some(o.code() as u32));
        }
    }
}

/// A stripped blob holds what the policy keeps: every kept text, the GPS
/// directory, the thumbnail, and the orientation, which is the one that was asked
/// for where there was one to rewrite.
pub proof fn law_strip_keeps_what_is_kept(
    src: Seq<u8>,
    policy: ExifPolicy,
    want: Option<Orientation>,
    tag: u16,
)
    requires
        policy.keeps_tag(tag),
        tag != TAG_ORIENTATION,
    ensures
        stripped(src, policy, want) matches Outcome::Rewritten(b) ==> ({
            &&& parse_blob(src) matches Some(x)
            &&& parse_blob(b) matches Some(r)
            &&& text_of(r.ifd0, tag) == text_of(x.ifd0, tag)
            &&& policy.gps == Retention::Keep ==> (r.gps_ifd is Some <==> x.gps_ifd is Some)
            &&& policy.thumbnail == Retention::Keep ==> r.thumbnail == x.thumbnail
            &&& policy.orientation == Retention::Keep ==> (match want {
                None => orientation_of(r.ifd0, r.order) == orientation_of(x.ifd0, x.order),
                Some(o) => orientation_of(x.ifd0, x.order) is Some ==> orientation_of(
                    r.ifd0,
                    r.order,
                ) == Some(o),
            })
        }),
{
    if let Outcome::Rewritten(b) = stripped(src, policy, want) {
        let x = parse_blob(src)->0;
        let p = x.pruned(policy);
        let q = x.prepared(policy, want);
        law_serialized_len(q);
        lemma_prepared_fits(src, policy, want);
        law_prepared_is_encodable(src, policy, want);
        law_round_trip(q);
        let r = parse_blob(b)->0;
        law_canonical_form_reads_alike(q, r, tag, Category::Other);
        lemma_prune_keeps_tag(x.ifd0, policy, tag);
        if policy.orientation == Retention::Keep {
            lemma_prune_keeps_tag(x.ifd0, policy, TAG_ORIENTATION);
        }
        if let Some(o) = want {
            lemma_reconciled_first(p.ifd0, o, p.order, tag);
        }
    }
}

} // verus!
