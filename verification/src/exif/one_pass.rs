//! Pruning and setting the orientation at once, and one after the other.
use super::canonical::lemma_same_blob;
use super::codec::ByteOrder;
use super::edit::{orientation_reconciled, uint_field, with_uint};
use super::ext::{lemma_similar_same, same_entry};
use super::laws::{law_round_trip, lemma_similar_update};
use super::layout::{out_of_line, sort_by_tag};
use super::model::{first_index, first_with, parse_blob, tiff_of, uint_value, EntryView, ExifView};
use super::policy::ExifPolicy;
use super::provenance::{consistent, lemma_parsed_tree};
use super::pruning::{
    law_prepared_is_encodable, law_prune_drops_what_is_discarded, lemma_kept_lacks,
    lemma_prepared_fits, lemma_pruned_read,
};
use super::refill::{lemma_sort_update, refilled};
use super::reread::lemma_similar_refl;
use super::retain::{oriented_in_place, overwritten, stripped, Outcome};
use super::rewritten::{lemma_read_single, lemma_rewritten_is_written, lemma_written_orientation};
use super::roundtrip::{law_serialized_len, lemma_reread_first};
use super::tags::{element_size, TAG_EXIF_IFD, TAG_GPS_IFD, TAG_ORIENTATION, TIFF_LONG, TIFF_SHORT};
use super::tree::lemma_first_index;
use crate::orientation::Orientation;
use vstd::prelude::*;

verus! {

broadcast use {super::codec::lemma_bytes16_len, super::codec::lemma_bytes32_len};

/// A tree in canonical form.
spec fn in_order(v: ExifView) -> ExifView {
    let sorted = |d: Option<Seq<EntryView>>|
        match d {
            Some(es) => Some(sort_by_tag(es)),
            None => None,
        };
    ExifView {
        ifd0: sort_by_tag(v.ifd0),
        exif_ifd: sorted(v.exif_ifd),
        gps_ifd: sorted(v.gps_ifd),
        ifd1: sorted(v.ifd1),
        ..v
    }
}

/// Where the first directories of two trees differ only in where the first
/// orientation value was read from, and it is in its row, they are written
/// alike.
proof fn lemma_read_from_anywhere(v: ExifView, a: EntryView, b: EntryView)
    requires
        first_with(v.ifd0, TAG_ORIENTATION) is Some,
        a.tag == TAG_ORIENTATION,
        same_entry(a, b),
        !out_of_line(a),
    ensures
        ({
            let k = first_index(v.ifd0, TAG_ORIENTATION);
            let x = ExifView { ifd0: v.ifd0.update(k, a), ..v };
            let y = ExifView { ifd0: v.ifd0.update(k, b), ..v };
            x.blob_bytes() == y.blob_bytes() && x.blob_len() == y.blob_len()
        }),
{
    let k = first_index(v.ifd0, TAG_ORIENTATION);
    let x = ExifView { ifd0: v.ifd0.update(k, a), ..v };
    let y = ExifView { ifd0: v.ifd0.update(k, b), ..v };
    lemma_first_index(v.ifd0, TAG_ORIENTATION);
    lemma_sort_update(v.ifd0, a);
    lemma_sort_update(v.ifd0, b);
    let s = sort_by_tag(v.ifd0);
    let i = first_index(s, TAG_ORIENTATION);
    let r = in_order(y);
    lemma_similar_update(s.update(i, a), i, b);
    assert(s.update(i, a).update(i, b) =~= s.update(i, b));
    lemma_similar_refl(s.update(i, b));
    if let Some(d) = v.exif_ifd {
        lemma_similar_refl(sort_by_tag(d));
    }
    if let Some(d) = v.gps_ifd {
        lemma_similar_refl(sort_by_tag(d));
    }
    if let Some(d) = v.ifd1 {
        lemma_similar_refl(sort_by_tag(d));
    }
    lemma_same_blob(x, r);
    lemma_same_blob(y, r);
}

/// Refilling an orientation value of one element is reconciling it.
proof fn lemma_refilled_single(q: ExifView, e: EntryView, o: Orientation)
    requires
        first_with(q.ifd0, TAG_ORIENTATION) == Some(e),
        consistent(e),
        e.count == 1,
        uint_field(e.kind, o.code(), q.order) is Some,
    ensures
        ({
            let f = uint_field(e.kind, o.code(), q.order)->0;
            let r = ExifView { ifd0: orientation_reconciled(q.ifd0, o, q.order), ..q };
            q.reoriented(f).blob_bytes() == r.blob_bytes() && q.reoriented(f).blob_len()
                == r.blob_len()
        }),
{
    let f = uint_field(e.kind, o.code(), q.order)->0;
    let k = first_index(q.ifd0, TAG_ORIENTATION);
    lemma_first_index(q.ifd0, TAG_ORIENTATION);
    let n: nat = f.len();
    assert(element_size(e.kind) == Some(n));
    assert(e.count * n == n);
    assert(overwritten(e.value, 0, f) =~= f);
    let a = EntryView { value: f, ..e };
    let b = with_uint(e, f);
    assert(refilled(q.ifd0, k, f) =~= q.ifd0.update(k, a));
    lemma_read_from_anywhere(q, a, b);
}

/// Pruning and setting the orientation tag in one pass gives what pruning first
/// and then rewriting the tag in place gives, where the tag holds one value: the
/// one pass leaves it with one.
pub proof fn law_one_pass_is_two(src: Seq<u8>, policy: ExifPolicy, o: Orientation, b: Seq<u8>)
    requires
        stripped(src, policy, None) == Outcome::Rewritten(b),
        parse_blob(b) matches Some(x) ==> (first_with(x.ifd0, TAG_ORIENTATION) matches Some(e)
            ==> e.count == 1),
    ensures
        parse_blob(b) matches Some(x) && stripped(src, policy, Some(o)) == Outcome::Rewritten(
            match oriented_in_place(b, x, o) {
                Some(c) => c,
                None => b,
            },
        ),
{
    let y = parse_blob(src)->0;
    let q = y.prepared(policy, None);
    law_serialized_len(q);
    lemma_prepared_fits(src, policy, None);
    law_prepared_is_encodable(src, policy, None);
    law_round_trip(q);
    let x = parse_blob(b)->0;
    lemma_written_orientation(q, x);
    lemma_similar_same(sort_by_tag(q.ifd0), x.ifd0);
    lemma_reread_first(q.ifd0, x.ifd0, TAG_ORIENTATION);
    lemma_first_index(q.ifd0, TAG_ORIENTATION);
    let k = first_index(q.ifd0, TAG_ORIENTATION);
    if k < q.ifd0.len() && uint_field(q.ifd0[k].kind, o.code(), q.order) is Some {
        let d = q.ifd0[k];
        let e = first_with(x.ifd0, TAG_ORIENTATION)->0;
        let f = uint_field(d.kind, o.code(), q.order)->0;
        let tiff = tiff_of(src);
        lemma_parsed_tree(src);
        lemma_pruned_read(y.ifd0, policy, tiff);
        lemma_read_single(q.ifd0, tiff);
        law_prune_drops_what_is_discarded(y, policy);
        lemma_kept_lacks(q.ifd0, policy, TAG_EXIF_IFD);
        lemma_kept_lacks(q.ifd0, policy, TAG_GPS_IFD);
        assert(consistent(d));
        lemma_one_value(d, q.order);
        lemma_rewritten_is_written(q, x, e, o);
        lemma_refilled_single(q, d, o);
    }
}

/// An integer entry of one element holds it.
proof fn lemma_one_value(e: EntryView, order: ByteOrder)
    requires
        consistent(e),
        e.count == 1,
        e.kind == TIFF_SHORT || e.kind == TIFF_LONG,
    ensures
        uint_value(e, order) is Some,
{
    let n: nat = if e.kind == TIFF_SHORT {
        2
    } else {
        4
    };
    assert(element_size(e.kind) == Some(n));
    assert(e.count * n == n);
}

} // verus!
