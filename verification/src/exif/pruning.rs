//! Pruned trees can be written, and pruning them again changes nothing.
use super::codec::ByteOrder;
use super::edit::{orientation_reconciled, pruned, uint_field, with_uint};
use super::model::{first_index, first_with, parse_blob, tiff_of, EntryView, ExifView};
use super::policy::{ExifPolicy, Retention};
use super::provenance::{all_read_from, consistent, lemma_parsed_tree, read_from};
use super::roundtrip::{dir_ok, lacks_tag, lemma_small_fits};
use super::sorting::{lemma_filter_all, lemma_filter_elem};
use super::tags::{
    Category, TAG_EXIF_IFD, TAG_GPS_IFD, TAG_INTEROP_IFD, TAG_ORIENTATION, TAG_THUMB_LENGTH,
    TAG_THUMB_OFFSET,
};
use super::tree::lemma_first_index;
use crate::orientation::Orientation;
use vstd::prelude::*;

verus! {

broadcast use {super::codec::lemma_bytes16_len, super::codec::lemma_bytes32_len};

/// Whether every entry carries a tag that a rewrite under `policy` carries.
pub open spec fn all_kept(d: Seq<EntryView>, policy: ExifPolicy) -> bool {
    forall|i: int| 0 <= i < d.len() ==> policy.keeps_tag((#[trigger] d[i]).tag)
}

/// What a pruned directory holds.
pub proof fn lemma_pruned(d: Seq<EntryView>, policy: ExifPolicy)
    ensures
        all_kept(pruned(d, policy), policy),
        pruned(d, policy).len() <= d.len(),
        forall|i: int| 0 <= i < pruned(d, policy).len() ==> d.contains(#[trigger] pruned(d, policy)[i]),
{
    let p = |e: EntryView| policy.keeps_tag(e.tag);
    d.lemma_filter_len(p);
    assert forall|i: int| 0 <= i < pruned(d, policy).len() implies policy.keeps_tag(
        (#[trigger] pruned(d, policy)[i]).tag,
    ) && d.contains(pruned(d, policy)[i]) by {
        lemma_filter_elem(d, p, i);
    }
}

/// Pruning what is kept changes nothing.
pub proof fn lemma_prune_kept(d: Seq<EntryView>, policy: ExifPolicy)
    requires
        all_kept(d, policy),
    ensures
        pruned(d, policy) == d,
{
    lemma_filter_all(d, |e: EntryView| policy.keeps_tag(e.tag));
}

/// A directory whose entries were read from one stream can be written.
pub proof fn lemma_read_dir_ok(d: Seq<EntryView>, tiff: Seq<u8>)
    requires
        all_read_from(d, tiff),
    ensures
        dir_ok(d),
{
    assert forall|i: int| 0 <= i < d.len() implies consistent(#[trigger] d[i]) by {
        assert(read_from(d[i], tiff));
    }
}

/// Pruning keeps where entries were read from.
pub proof fn lemma_pruned_read(d: Seq<EntryView>, policy: ExifPolicy, tiff: Seq<u8>)
    requires
        all_read_from(d, tiff),
    ensures
        all_read_from(pruned(d, policy), tiff),
{
    lemma_pruned(d, policy);
    let r = pruned(d, policy);
    assert forall|i: int| 0 <= i < r.len() implies read_from(#[trigger] r[i], tiff) by {
        assert(d.contains(r[i]));
        let k = d.index_of(r[i]);
        assert(d[k] == r[i]);
    }
}

/// A pruned directory lacks the tags that locate other bytes.
pub proof fn lemma_kept_lacks(d: Seq<EntryView>, policy: ExifPolicy, tag: u16)
    requires
        all_kept(d, policy),
        !policy.keeps_tag(tag),
    ensures
        lacks_tag(d, tag),
        first_with(d, tag) is None,
{
    lemma_first_index(d, tag);
}

/// Reconciling the orientation keeps tags, and that the entries can be written.
pub proof fn lemma_reconciled_ok(d: Seq<EntryView>, o: Orientation, order: ByteOrder)
    requires
        dir_ok(d),
    ensures
        dir_ok(orientation_reconciled(d, o, order)),
        orientation_reconciled(d, o, order).len() == d.len(),
        forall|i: int|
            0 <= i < d.len() ==> (#[trigger] orientation_reconciled(d, o, order)[i]).tag == d[i].tag,
{
    lemma_first_index(d, TAG_ORIENTATION);
    let k = first_index(d, TAG_ORIENTATION);
    let r = orientation_reconciled(d, o, order);
    if k < d.len() && uint_field(d[k].kind, o.code(), order) is Some {
        let value = uint_field(d[k].kind, o.code(), order)->0;
        let e = with_uint(d[k], value);
        assert(r == d.update(k, e));
        assert(consistent(e)) by {
            let n: nat = value.len();
            assert(super::tags::element_size(e.kind) == Some(n));
            assert(e.count * n == n);
        }
        assert forall|i: int| 0 <= i < r.len() implies consistent(#[trigger] r[i]) by {
            if i != k {
                assert(r[i] == d[i]);
            }
        }
    }
}

/// In a rewrite of at most 4 GiB all offsets are 32-bit ones.
pub proof fn lemma_prepared_fits(data: Seq<u8>, policy: ExifPolicy, want: Option<Orientation>)
    requires
        parse_blob(data) is Some,
        (parse_blob(data)->0).prepared(policy, want).tiff_len() <= u32::MAX,
    ensures
        (parse_blob(data)->0).prepared(policy, want).offsets_fit(),
{
    lemma_parsed_tree(data);
    lemma_small_fits((parse_blob(data)->0).prepared(policy, want));
}

/// What pruning and reconciling make of a parsed tree can be written and read
/// back, within the size that 32-bit offsets allow.
pub proof fn law_prepared_is_encodable(
    data: Seq<u8>,
    policy: ExifPolicy,
    want: Option<Orientation>,
)
    requires
        parse_blob(data) is Some,
        (parse_blob(data)->0).prepared(policy, want).offsets_fit(),
    ensures
        (parse_blob(data)->0).prepared(policy, want).encodable(),
{
    let x = parse_blob(data)->0;
    let tiff = tiff_of(data);
    lemma_parsed_tree(data);
    let p = x.pruned(policy);
    lemma_pruned(x.ifd0, policy);
    lemma_pruned_read(x.ifd0, policy, tiff);
    lemma_read_dir_ok(p.ifd0, tiff);
    if let Some(d) = x.exif_ifd {
        lemma_pruned(d, policy);
        lemma_pruned_read(d, policy, tiff);
        lemma_read_dir_ok(pruned(d, policy), tiff);
        lemma_kept_lacks(pruned(d, policy), policy, TAG_INTEROP_IFD);
    }
    if let Some(d) = x.gps_ifd {
        lemma_read_dir_ok(d, tiff);
    }
    if let Some(d) = x.ifd1 {
        lemma_pruned(d, policy);
        lemma_pruned_read(d, policy, tiff);
        lemma_read_dir_ok(pruned(d, policy), tiff);
        lemma_kept_lacks(pruned(d, policy), policy, TAG_THUMB_OFFSET);
        lemma_kept_lacks(pruned(d, policy), policy, TAG_THUMB_LENGTH);
    }
    let q = x.prepared(policy, want);
    if let Some(o) = want {
        lemma_reconciled_ok(p.ifd0, o, p.order);
    }
    assert(all_kept(q.ifd0, policy)) by {
        assert forall|i: int| 0 <= i < q.ifd0.len() implies policy.keeps_tag(
            (#[trigger] q.ifd0[i]).tag,
        ) by {
            assert(policy.keeps_tag(p.ifd0[i].tag));
        }
    }
    lemma_kept_lacks(q.ifd0, policy, TAG_EXIF_IFD);
    lemma_kept_lacks(q.ifd0, policy, TAG_GPS_IFD);
}

/// Pruning twice by one policy is pruning once.
pub proof fn law_prune_is_idempotent(x: ExifView, policy: ExifPolicy)
    ensures
        x.pruned(policy).pruned(policy) == x.pruned(policy),
{
    lemma_pruned(x.ifd0, policy);
    lemma_prune_kept(pruned(x.ifd0, policy), policy);
    if let Some(d) = x.exif_ifd {
        lemma_pruned(d, policy);
        lemma_prune_kept(pruned(d, policy), policy);
    }
    if let Some(d) = x.ifd1 {
        lemma_pruned(d, policy);
        lemma_prune_kept(pruned(d, policy), policy);
    }
}

/// Pruning leaves nothing that the policy discards: no tag of a discarded
/// category in any directory but GPS, no GPS directory, no thumbnail; and no
/// tag that locates bytes elsewhere.
pub proof fn law_prune_drops_what_is_discarded(x: ExifView, policy: ExifPolicy)
    ensures
        all_kept(x.pruned(policy).ifd0, policy),
        x.pruned(policy).exif_ifd matches Some(d) ==> all_kept(d, policy),
        x.pruned(policy).ifd1 matches Some(d) ==> all_kept(d, policy),
        policy.gps == Retention::Discard ==> x.pruned(policy).gps_ifd is None,
        policy.thumbnail == Retention::Discard ==> x.pruned(policy).thumbnail is None && x.pruned(
            policy,
        ).ifd1 is None,
        policy.camera == Retention::Discard ==> !x.pruned(policy).holds_category(Category::Camera),
        policy.datetimes == Retention::Discard ==> !x.pruned(policy).holds_category(
            Category::Datetimes,
        ),
{
    lemma_pruned(x.ifd0, policy);
    if let Some(d) = x.exif_ifd {
        lemma_pruned(d, policy);
    }
    if let Some(d) = x.ifd1 {
        lemma_pruned(d, policy);
    }
}

} // verus!
