//! What writing, reading, pruning and editing have to do with each other.
use super::canonical::{lemma_framing, lemma_reread_sorts_alike, lemma_same_blob};
use super::codec::ByteOrder;
use super::edit::{
    has_category_in, nul_index, orientation_entry_view, orientation_of, orientation_put,
    orientation_reconciled, pruned, put_entry, text_entry, text_of, uint_field, with_uint,
};
use super::ext::{aliased_alike, lemma_similar_same, same_entry, similar};
use super::layout::{aliases, out_of_line, sort_by_tag};
use super::model::{first_index, first_with, parse_blob, EntryView, ExifView, TextEncoding};
use super::policy::{ExifPolicy, Retention};
use super::pruning::{
    all_kept, law_prepared_is_encodable, law_prune_is_idempotent, lemma_prepared_fits,
    lemma_prune_kept, lemma_pruned,
};
use super::reread::lemma_similar_refl;
use super::retain::{reoriented, rewrite_cap, stripped, Outcome};
use super::roundtrip::{
    is_tag, law_serialized_len, lemma_reread_first, lemma_sort_keeps_tag, reread_as,
};
use super::sorting::{lemma_filter_elem, lemma_sort_sorted};
use super::tags::{category_of, Category, TAG_ORIENTATION};
use super::tree::lemma_first_index;
use super::whole::lemma_tiff_reads_back;
use crate::orientation::{lemma_orientation_codes, Orientation};
use vstd::prelude::*;

verus! {

broadcast use {super::codec::lemma_bytes16_len, super::codec::lemma_bytes32_len};

// ── Writing and reading ─────────────────────────────────────────────────────

/// Reading what was written gives the tree back in canonical form: byte order,
/// framing and thumbnail as they were, every directory's entries in tag order.
pub proof fn law_round_trip(v: ExifView)
    requires
        v.encodable(),
    ensures
        parse_blob(v.blob_bytes()) matches Some(r) && v.canonically(r) && r.text_encoding
            == TextEncoding::Ascii,
{
    lemma_framing(v);
    lemma_tiff_reads_back(v);
}

/// What was written is a fixed point: reading it and writing it again gives the
/// same bytes.
pub proof fn law_written_is_canonical(v: ExifView)
    requires
        v.encodable(),
    ensures
        parse_blob(v.blob_bytes()) matches Some(r) && r.blob_bytes() == v.blob_bytes(),
{
    law_round_trip(v);
    lemma_same_blob(v, parse_blob(v.blob_bytes())->0);
}

/// Sorting and rereading keep which categories are there.
proof fn lemma_reread_category(d: Seq<EntryView>, r: Seq<EntryView>, c: Category)
    requires
        similar(sort_by_tag(d), r),
    ensures
        has_category_in(d, c) == has_category_in(r, c),
{
    let s = sort_by_tag(d);
    lemma_similar_same(s, r);
    if has_category_in(d, c) {
        let i = choose|i: int| 0 <= i < d.len() && category_of((#[trigger] d[i]).tag) == c;
        let t = d[i].tag;
        lemma_sort_keeps_tag(d, t);
        d.lemma_filter_contains(is_tag(t), i);
        let f = d.filter(is_tag(t));
        let m = f.index_of(d[i]);
        assert(f[m] == d[i]);
        lemma_filter_elem(s, is_tag(t), m);
        let k = s.index_of(f[m]);
        assert(s[k] == f[m]);
        assert(same_entry(s[k], r[k]));
    }
    if has_category_in(r, c) {
        let k = choose|k: int| 0 <= k < r.len() && category_of((#[trigger] r[k]).tag) == c;
        assert(same_entry(s[k], r[k]));
        lemma_sort_sorted(d);
        assert(d.contains(s[k]));
        let i = d.index_of(s[k]);
        assert(d[i] == s[k]);
    }
}

/// The canonical form reads as the tree does: the same orientation, texts,
/// categories, GPS directory and thumbnail.
pub proof fn law_canonical_form_reads_alike(v: ExifView, r: ExifView, tag: u16, c: Category)
    requires
        v.canonically(r),
    ensures
        orientation_of(r.ifd0, r.order) == orientation_of(v.ifd0, v.order),
        text_of(r.ifd0, tag) == text_of(v.ifd0, tag),
        r.holds_category(c) == v.holds_category(c),
        r.gps_ifd is Some <==> v.gps_ifd is Some,
        r.thumbnail == v.thumbnail,
{
    lemma_similar_same(sort_by_tag(v.ifd0), r.ifd0);
    lemma_reread_first(v.ifd0, r.ifd0, TAG_ORIENTATION);
    lemma_reread_first(v.ifd0, r.ifd0, tag);
    lemma_reread_category(v.ifd0, r.ifd0, c);
    if let Some(d) = v.exif_ifd {
        lemma_reread_category(d, r.exif_ifd->0, c);
    }
}

// ── Retaining ───────────────────────────────────────────────────────────────

/// An inline entry may be read from anywhere.
pub proof fn lemma_similar_update(d: Seq<EntryView>, k: int, e: EntryView)
    requires
        0 <= k < d.len(),
        same_entry(d[k], e),
        !out_of_line(e),
    ensures
        similar(d, d.update(k, e)),
{
    reveal(similar);
    let r = d.update(k, e);
    assert forall|m: int| 0 <= m < d.len() implies aliased_alike(
        d.take(m),
        r.take(m),
        #[trigger] d[m],
        #[trigger] r[m],
    ) by {
        assert forall|i: int| 0 <= i < m implies aliases(#[trigger] d.take(m)[i], d[m]) == aliases(
            #[trigger] r.take(m)[i],
            r[m],
        ) by {
            assert(d.take(m)[i] == d[i]);
            assert(r.take(m)[i] == r[i]);
        }
    }
}

/// Reconciling an orientation that already agrees changes no byte.
proof fn lemma_reconcile_again(
    d: Seq<EntryView>,
    r: Seq<EntryView>,
    o: Orientation,
    order: ByteOrder,
)
    requires
        similar(sort_by_tag(orientation_reconciled(d, o, order)), r),
    ensures
        similar(sort_by_tag(r), orientation_reconciled(r, o, order)),
{
    let p = orientation_reconciled(d, o, order);
    lemma_reread_sorts_alike(p, r);
    lemma_similar_same(sort_by_tag(p), r);
    lemma_reread_first(p, r, TAG_ORIENTATION);
    lemma_first_index(d, TAG_ORIENTATION);
    lemma_first_index(p, TAG_ORIENTATION);
    lemma_first_index(r, TAG_ORIENTATION);
    lemma_similar_refl(r);
    let k = first_index(d, TAG_ORIENTATION);
    let m = first_index(r, TAG_ORIENTATION);
    if m < r.len() {
        if let Some(value) = uint_field(r[m].kind, o.code(), order) {
            if k < d.len() && uint_field(d[k].kind, o.code(), order) is Some {
                let e = with_uint(d[k], uint_field(d[k].kind, o.code(), order)->0);
                assert(p == d.update(k, e));
                lemma_first_of_update(d, k, e);
                assert(first_with(p, TAG_ORIENTATION) == Some(e));
                assert(same_entry(e, r[m]));
                assert(orientation_reconciled(r, o, order) == r.update(m, with_uint(r[m], value)));
                lemma_similar_update(r, m, with_uint(r[m], value));
            } else {
                assert(p == d);
            }
        }
    }
}

/// Replacing the first entry with a tag by another makes that one the first.
proof fn lemma_first_of_update(d: Seq<EntryView>, k: int, e: EntryView)
    requires
        k == first_index(d, e.tag),
        k < d.len(),
    ensures
        first_index(d.update(k, e), e.tag) == k,
        first_with(d.update(k, e), e.tag) == Some(e),
{
    let r = d.update(k, e);
    lemma_first_index(d, e.tag);
    lemma_first_index(r, e.tag);
    let m = first_index(r, e.tag);
    assert(r[k] == e);
    if m < k {
        assert(r[m] == d[m]);
    }
}

/// What is kept is still kept when read back.
proof fn lemma_reread_kept(d: Seq<EntryView>, r: Seq<EntryView>, policy: ExifPolicy)
    requires
        similar(sort_by_tag(d), r),
        all_kept(d, policy),
    ensures
        all_kept(r, policy),
        r.len() == d.len(),
{
    let s = sort_by_tag(d);
    lemma_similar_same(s, r);
    lemma_sort_sorted(d);
    super::layout::lemma_sort_len(d);
    assert forall|i: int| 0 <= i < r.len() implies policy.keeps_tag((#[trigger] r[i]).tag) by {
        assert(same_entry(s[i], r[i]));
        assert(d.contains(s[i]));
        let k = d.index_of(s[i]);
        assert(d[k] == s[i]);
    }
}

/// The canonical form of a pruned tree has nothing left to prune.
proof fn lemma_reread_fixed(q: ExifView, policy: ExifPolicy, r: ExifView)
    requires
        q.pruned(policy) == q,
        q.canonically(r),
    ensures
        r.pruned(policy) == r,
{
    lemma_pruned(q.ifd0, policy);
    lemma_reread_kept(q.ifd0, r.ifd0, policy);
    lemma_prune_kept(r.ifd0, policy);
    if let Some(d) = q.exif_ifd {
        lemma_pruned(d, policy);
        lemma_reread_kept(d, r.exif_ifd->0, policy);
        lemma_prune_kept(r.exif_ifd->0, policy);
    }
    if let Some(d) = q.ifd1 {
        lemma_pruned(d, policy);
        lemma_reread_kept(d, r.ifd1->0, policy);
        lemma_prune_kept(r.ifd1->0, policy);
    }
}

/// A prepared tree has nothing left to prune.
proof fn lemma_prepared_fixed(x: ExifView, policy: ExifPolicy, want: Option<Orientation>)
    ensures
        x.prepared(policy, want).pruned(policy) == x.prepared(policy, want),
{
    let p = x.pruned(policy);
    let q = x.prepared(policy, want);
    law_prune_is_idempotent(x, policy);
    lemma_pruned(x.ifd0, policy);
    if let Some(o) = want {
        lemma_reconciled_tags(p.ifd0, o, p.order);
        assert forall|i: int| 0 <= i < q.ifd0.len() implies policy.keeps_tag(
            (#[trigger] q.ifd0[i]).tag,
        ) by {
            assert(policy.keeps_tag(p.ifd0[i].tag));
        }
        lemma_prune_kept(q.ifd0, policy);
    }
}

/// Reconciling the orientation keeps tags.
proof fn lemma_reconciled_tags(d: Seq<EntryView>, o: Orientation, order: ByteOrder)
    ensures
        orientation_reconciled(d, o, order).len() == d.len(),
        forall|i: int|
            0 <= i < d.len() ==> (#[trigger] orientation_reconciled(d, o, order)[i]).tag == d[i].tag,
{
    lemma_first_index(d, TAG_ORIENTATION);
}

/// A directory and what is read back of it are empty together.
proof fn lemma_reread_len(d: Seq<EntryView>, r: Seq<EntryView>)
    requires
        similar(sort_by_tag(d), r),
    ensures
        d.len() == r.len(),
{
    lemma_reread_sorts_alike(d, r);
}

/// Stripping is final: what a policy left of a blob it leaves as it is, byte
/// for byte.
pub proof fn law_strip_is_idempotent(src: Seq<u8>, policy: ExifPolicy, want: Option<Orientation>)
    ensures
        stripped(src, policy, want) matches Outcome::Rewritten(b) ==> stripped(b, policy, want)
            == Outcome::Rewritten(b),
{
    if let Outcome::Rewritten(b) = stripped(src, policy, want) {
        let x = parse_blob(src)->0;
        let q = x.prepared(policy, want);
        law_serialized_len(q);
        lemma_prepared_fits(src, policy, want);
        law_prepared_is_encodable(src, policy, want);
        law_round_trip(q);
        let r = parse_blob(b)->0;
        lemma_prepared_fixed(x, policy, want);
        lemma_reread_fixed(q, policy, r);
        let s = r.prepared(policy, want);
        lemma_reread_sorts_alike(q.ifd0, r.ifd0);
        lemma_self_canonical(q, r, want);
        lemma_same_blob(q, r);
        lemma_same_blob(r, s);
        lemma_reread_len(q.ifd0, r.ifd0);
        assert(s.blob_bytes() == b);
        assert(s.blob_len() == b.len());
    }
}

/// Reconciling a canonical form again leaves it in canonical form.
proof fn lemma_self_canonical(q: ExifView, r: ExifView, want: Option<Orientation>)
    requires
        q.canonically(r),
        want matches Some(o) ==> exists|d: Seq<EntryView>| q.ifd0 == #[trigger] orientation_reconciled(d, o, q.order),
    ensures
        r.canonically(
            match want {
                Some(o) => ExifView { ifd0: orientation_reconciled(r.ifd0, o, r.order), ..r },
                None => r,
            },
        ),
        want matches Some(o) ==> orientation_reconciled(r.ifd0, o, r.order).len() == r.ifd0.len(),
{
    lemma_reread_sorts_alike(q.ifd0, r.ifd0);
    lemma_similar_refl(r.ifd0);
    lemma_opt_self(q.exif_ifd, r.exif_ifd);
    lemma_opt_self(q.gps_ifd, r.gps_ifd);
    lemma_opt_self(q.ifd1, r.ifd1);
    if let Some(o) = want {
        let d = choose|d: Seq<EntryView>| q.ifd0 == #[trigger] orientation_reconciled(d, o, q.order);
        lemma_reconcile_again(d, r.ifd0, o, q.order);
        lemma_reconciled_tags(r.ifd0, o, q.order);
    }
}

/// What was read back is its own canonical form.
proof fn lemma_opt_self(d: Option<Seq<EntryView>>, r: Option<Seq<EntryView>>)
    requires
        reread_as(d, r),
    ensures
        reread_as(r, r),
{
    if let Some(x) = d {
        lemma_reread_sorts_alike(x, r->0);
        lemma_similar_refl(r->0);
    }
}

/// A stripped blob is no larger than twice its source and a kilobyte.
pub proof fn law_strip_is_bounded(src: Seq<u8>, policy: ExifPolicy, want: Option<Orientation>)
    ensures
        stripped(src, policy, want) matches Outcome::Rewritten(b) ==> b.len() <= rewrite_cap(
            src.len() as int,
        ) && b.len() <= 2 * src.len() + 1024,
{
    if let Outcome::Rewritten(b) = stripped(src, policy, want) {
        law_serialized_len((parse_blob(src)->0).prepared(policy, want));
    }
}

/// A stripped blob parses, and holds nothing that the policy discards.
pub proof fn law_strip_drops_what_is_discarded(
    src: Seq<u8>,
    policy: ExifPolicy,
    want: Option<Orientation>,
)
    ensures
        stripped(src, policy, want) matches Outcome::Rewritten(b) ==> (parse_blob(b) matches Some(r)
            && all_kept(r.ifd0, policy) && (r.exif_ifd matches Some(d) ==> all_kept(d, policy)) && (
        r.ifd1 matches Some(d) ==> all_kept(d, policy)) && (policy.gps == Retention::Discard
            ==> r.gps_ifd is None) && (policy.thumbnail == Retention::Discard ==> r.thumbnail is None
            && r.ifd1 is None)),
{
    if let Outcome::Rewritten(b) = stripped(src, policy, want) {
        let x = parse_blob(src)->0;
        let q = x.prepared(policy, want);
        law_serialized_len(q);
        lemma_prepared_fits(src, policy, want);
        law_prepared_is_encodable(src, policy, want);
        law_round_trip(q);
        let r = parse_blob(b)->0;
        lemma_prepared_fixed(x, policy, want);
        lemma_reread_fixed(q, policy, r);
        super::pruning::law_prune_drops_what_is_discarded(r, policy);
    }
}

/// A stripped blob declares the orientation that was asked for, or none; keeping
/// all of it with that orientation changes nothing.
pub proof fn law_stripped_orientation_agrees(src: Seq<u8>, policy: ExifPolicy, o: Orientation)
    ensures
        stripped(src, policy, Some(o)) matches Outcome::Rewritten(b) ==> (parse_blob(
            b,
        ) matches Some(r) && (orientation_of(r.ifd0, r.order) == Some(o) || orientation_of(
            r.ifd0,
            r.order,
        ) is None)) && reoriented(b, o) == Outcome::Unchanged,
{
    if let Outcome::Rewritten(b) = stripped(src, policy, Some(o)) {
        let x = parse_blob(src)->0;
        let q = x.prepared(policy, Some(o));
        let d = x.pruned(policy).ifd0;
        law_serialized_len(q);
        lemma_prepared_fits(src, policy, Some(o));
        law_prepared_is_encodable(src, policy, Some(o));
        law_round_trip(q);
        let r = parse_blob(b)->0;
        law_canonical_form_reads_alike(q, r, TAG_ORIENTATION, Category::Other);
        lemma_similar_same(sort_by_tag(q.ifd0), r.ifd0);
        lemma_reread_first(q.ifd0, r.ifd0, TAG_ORIENTATION);
        lemma_first_index(d, TAG_ORIENTATION);
        let k = first_index(d, TAG_ORIENTATION);
        if k < d.len() && uint_field(d[k].kind, o.code(), q.order) is Some {
            law_set_orientation_reads_back(d, o, q.order);
            assert(q.ifd0 == orientation_put(d, o, q.order));
        } else {
            assert(q.ifd0 == d);
        }
    }
}

// ── Editing ─────────────────────────────────────────────────────────────────

/// What is put is read: the first entry with its tag is the one put.
pub proof fn law_put_is_first(d: Seq<EntryView>, e: EntryView)
    ensures
        first_with(put_entry(d, e), e.tag) == Some(e),
{
    lemma_first_index(d, e.tag);
    let k = first_index(d, e.tag);
    let r = put_entry(d, e);
    if k < d.len() {
        lemma_first_of_update(d, k, e);
    } else {
        lemma_first_index(r, e.tag);
        assert(r[k] == e);
        let m = first_index(r, e.tag);
        if m < k {
            assert(r[m] == d[m]);
        }
    }
}

/// Putting an entry changes no other tag's first entry.
pub proof fn law_put_keeps_others(d: Seq<EntryView>, e: EntryView, tag: u16)
    requires
        tag != e.tag,
    ensures
        first_with(put_entry(d, e), tag) == first_with(d, tag),
{
    lemma_first_index(d, e.tag);
    lemma_first_index(d, tag);
    let r = put_entry(d, e);
    lemma_first_index(r, tag);
    let k = first_index(d, tag);
    let m = first_index(r, tag);
    if k < d.len() {
        assert(r[k] == d[k]);
    }
    if m < k {
        if m < d.len() {
            assert(r[m] == d[m] || r[m] == e);
        }
    }
    if k < m && k < d.len() {
        assert(r[k].tag == tag);
    }
}

/// A set orientation reads back.
pub proof fn law_set_orientation_reads_back(d: Seq<EntryView>, o: Orientation, order: ByteOrder)
    ensures
        orientation_of(orientation_put(d, o, order), order) == Some(o),
{
    lemma_orientation_codes(o, 0);
    super::codec::lemma_bytes16_reads_back(o.code() as u16, order);
    super::codec::lemma_bytes32_reads_back(o.code() as u32, order);
    lemma_first_index(d, TAG_ORIENTATION);
    match first_with(d, TAG_ORIENTATION) {
        Some(e) => {
            if let Some(value) = uint_field(e.kind, o.code(), order) {
                law_put_is_first(d, with_uint(e, value));
            } else {
                law_put_is_first(d, orientation_entry_view(o, order));
            }
        },
        None => {
            law_put_is_first(d, orientation_entry_view(o, order));
        },
    }
}

/// Set text reads back up to its first NUL; empty text reads as absent.
pub proof fn law_set_text_reads_back(
    d: Seq<EntryView>,
    tag: u16,
    text: Seq<char>,
    encoding: TextEncoding,
)
    ensures
        ({
            let bytes = vstd::utf8::encode_utf8(text);
            let shown = bytes.take(nul_index(bytes));
            text_of(put_entry(d, text_entry(tag, text, encoding)), tag) == (if shown.len() > 0 {
                Some(shown)
            } else {
                None
            })
        }),
{
    let e = text_entry(tag, text, encoding);
    law_put_is_first(d, e);
    let bytes = vstd::utf8::encode_utf8(text);
    super::edit::lemma_nul_index(bytes);
    super::edit::lemma_nul_index(bytes.push(0));
    let n = nul_index(bytes);
    let m = nul_index(bytes.push(0));
    if n < m {
        assert(bytes.push(0)[n] != 0);
    }
    if m < n {
        assert(bytes.push(0)[m] == bytes[m]);
    }
    assert(bytes.push(0).take(n) =~= bytes.take(n));
}

} // verus!
