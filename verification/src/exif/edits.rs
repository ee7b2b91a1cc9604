//! Any sequence of edits can be written and read back.
use super::authoring::{
    empty_tree, has_room, law_empty_tree_is_encodable, lemma_orientation_to_put,
    lemma_put_keeps_dir, lemma_put_keeps_sound, lemma_sound_with_room, lemma_text_consistent,
    orientation_to_put, shown, sound, with_entry,
};
use super::edit::{orientation_of, orientation_put, put_entry, text_entry, text_of};
use super::laws::{
    law_canonical_form_reads_alike, law_put_is_first, law_put_keeps_others, law_round_trip,
    law_set_orientation_reads_back, law_set_text_reads_back, law_written_is_canonical,
};
use super::ext::holder_of;
use super::layout::{ext_data, out_of_line, slot, sort_by_tag, table_len, tag_sorted};
use super::model::{first_index, parse_blob, tiff_of, EntryView, ExifView, TextEncoding};
use super::provenance::{consistent, lemma_parsed_tree};
use super::pruning::lemma_read_dir_ok;
use super::reserialize::lemma_entry_survives;
use super::roundtrip::{dir_ok, is_tag, lemma_sort_keeps_tag};
use super::sorting::{lemma_filter_none, lemma_sort_sorted};
use super::tags::{Category, TAG_ARTIST, TAG_COPYRIGHT, TAG_ORIENTATION};
use super::tree::lemma_first_index;
use crate::orientation::Orientation;
use vstd::prelude::*;

verus! {

broadcast use {super::codec::lemma_bytes16_len, super::codec::lemma_bytes32_len};

/// One call of a setter.
pub enum Edit {
    /// [`Exif::set_orientation`](super::tree::Exif::set_orientation).
    Orientation(Orientation),
    /// [`Exif::set_copyright`](super::tree::Exif::set_copyright).
    Copyright(Seq<char>),
    /// [`Exif::set_artist`](super::tree::Exif::set_artist).
    Artist(Seq<char>),
}

/// `v` after one call of a setter.
pub open spec fn edited(v: ExifView, edit: Edit) -> ExifView {
    match edit {
        Edit::Orientation(o) => ExifView { ifd0: orientation_put(v.ifd0, o, v.order), ..v },
        Edit::Copyright(t) => with_entry(v, text_entry(TAG_COPYRIGHT, t, v.text_encoding)),
        Edit::Artist(t) => with_entry(v, text_entry(TAG_ARTIST, t, v.text_encoding)),
    }
}

/// `v` after a sequence of calls.
pub open spec fn edited_by(v: ExifView, edits: Seq<Edit>) -> ExifView
    decreases edits.len(),
{
    if edits.len() == 0 {
        v
    } else {
        edited(edited_by(v, edits.drop_last()), edits.last())
    }
}

impl Edit {
    /// The tag that is set.
    pub open spec fn tag(self) -> u16 {
        match self {
            Edit::Orientation(_) => TAG_ORIENTATION,
            Edit::Copyright(_) => TAG_COPYRIGHT,
            Edit::Artist(_) => TAG_ARTIST,
        }
    }

    /// Whether the length of a text is a count.
    pub open spec fn fits(self) -> bool {
        match self {
            Edit::Orientation(_) => true,
            Edit::Copyright(t) | Edit::Artist(t) => vstd::utf8::encode_utf8(t).len() < u32::MAX,
        }
    }
}

/// Whether the length of every text is a count.
pub open spec fn texts_fit(edits: Seq<Edit>) -> bool {
    forall|i: int| 0 <= i < edits.len() ==> (#[trigger] edits[i]).fits()
}

/// The orientation that a tree reads after a sequence of calls, if it read
/// `before`.
pub open spec fn last_orientation(edits: Seq<Edit>, before: Option<Orientation>) -> Option<
    Orientation,
>
    decreases edits.len(),
{
    if edits.len() == 0 {
        before
    } else {
        match edits.last() {
            Edit::Orientation(o) => Some(o),
            _ => last_orientation(edits.drop_last(), before),
        }
    }
}

/// The copyright that a tree reads after a sequence of calls, if it read
/// `before`.
pub open spec fn last_copyright(edits: Seq<Edit>, before: Option<Seq<u8>>) -> Option<Seq<u8>>
    decreases edits.len(),
{
    if edits.len() == 0 {
        before
    } else {
        match edits.last() {
            Edit::Copyright(t) => shown(t),
            _ => last_copyright(edits.drop_last(), before),
        }
    }
}

/// The artist that a tree reads after a sequence of calls, if it read `before`.
pub open spec fn last_artist(edits: Seq<Edit>, before: Option<Seq<u8>>) -> Option<Seq<u8>>
    decreases edits.len(),
{
    if edits.len() == 0 {
        before
    } else {
        match edits.last() {
            Edit::Artist(t) => shown(t),
            _ => last_artist(edits.drop_last(), before),
        }
    }
}

/// The entry that a setter puts.
pub open spec fn entry_to_put(v: ExifView, edit: Edit) -> EntryView {
    match edit {
        Edit::Orientation(o) => orientation_to_put(v.ifd0, o, v.order),
        Edit::Copyright(t) => text_entry(TAG_COPYRIGHT, t, v.text_encoding),
        Edit::Artist(t) => text_entry(TAG_ARTIST, t, v.text_encoding),
    }
}

/// A setter puts one entry, which is no pointer and is consistent where its
/// text fits.
proof fn lemma_entry_to_put(v: ExifView, edit: Edit)
    ensures
        edited(v, edit) == with_entry(v, entry_to_put(v, edit)),
        entry_to_put(v, edit).tag == edit.tag(),
        edit.fits() ==> consistent(entry_to_put(v, edit)),
{
    match edit {
        Edit::Orientation(o) => {
            lemma_orientation_to_put(v.ifd0, o, v.order);
        },
        Edit::Copyright(t) => {
            if edit.fits() {
                lemma_text_consistent(TAG_COPYRIGHT, t, v.text_encoding);
            }
        },
        Edit::Artist(t) => {
            if edit.fits() {
                lemma_text_consistent(TAG_ARTIST, t, v.text_encoding);
            }
        },
    }
}

/// Edits change the first directory alone, and keep its entries consistent, and
/// the tree sound.
proof fn lemma_edits_keep(v: ExifView, edits: Seq<Edit>)
    requires
        texts_fit(edits),
        dir_ok(v.ifd0),
    ensures
        edited_by(v, edits) == (ExifView { ifd0: edited_by(v, edits).ifd0, ..v }),
        dir_ok(edited_by(v, edits).ifd0),
        sound(v) ==> sound(edited_by(v, edits)),
    decreases edits.len(),
{
    if edits.len() > 0 {
        let before = edits.drop_last();
        assert forall|i: int| 0 <= i < before.len() implies (#[trigger] before[i]).fits() by {
            assert(before[i] == edits[i]);
        }
        lemma_edits_keep(v, before);
        let w = edited_by(v, before);
        let last = edits[edits.len() - 1];
        assert(last.fits());
        lemma_entry_to_put(w, last);
        lemma_put_keeps_dir(w.ifd0, entry_to_put(w, last));
        if sound(v) {
            lemma_put_keeps_sound(w, entry_to_put(w, last));
        }
    }
}

/// A setter called twice leaves the tree that its second call alone makes: no
/// second entry is ever added.
pub proof fn law_last_set_wins(v: ExifView, first: Edit, second: Edit)
    requires
        first.tag() == second.tag(),
    ensures
        edited(edited(v, first), second) == edited(v, second),
{
    let w = edited(v, first);
    lemma_entry_to_put(v, first);
    lemma_entry_to_put(v, second);
    lemma_entry_to_put(w, second);
    let a = entry_to_put(v, first);
    let b = entry_to_put(v, second);
    law_put_is_first(v.ifd0, a);
    lemma_first_index(v.ifd0, a.tag);
    lemma_first_index(w.ifd0, a.tag);
    let k = first_index(v.ifd0, a.tag);
    assert(w.ifd0[k] == a);
    let m = first_index(w.ifd0, a.tag);
    if m < k {
        assert(w.ifd0[m] == v.ifd0[m]);
    }
    assert(entry_to_put(w, second) == b);
    assert(put_entry(w.ifd0, b) =~= put_entry(v.ifd0, b));
}

/// Each setter's last call is what a tree reads.
pub proof fn law_last_edits_win(v: ExifView, edits: Seq<Edit>)
    ensures
        ({
            let w = edited_by(v, edits);
            &&& w.order == v.order
            &&& w.text_encoding == v.text_encoding
            &&& orientation_of(w.ifd0, w.order) == last_orientation(
                edits,
                orientation_of(v.ifd0, v.order),
            )
            &&& text_of(w.ifd0, TAG_COPYRIGHT) == last_copyright(
                edits,
                text_of(v.ifd0, TAG_COPYRIGHT),
            )
            &&& text_of(w.ifd0, TAG_ARTIST) == last_artist(edits, text_of(v.ifd0, TAG_ARTIST))
        }),
    decreases edits.len(),
{
    if edits.len() > 0 {
        let before = edits.drop_last();
        law_last_edits_win(v, before);
        let w = edited_by(v, before);
        match edits.last() {
            Edit::Orientation(o) => {
                lemma_orientation_to_put(w.ifd0, o, w.order);
                let e = orientation_to_put(w.ifd0, o, w.order);
                law_set_orientation_reads_back(w.ifd0, o, w.order);
                law_put_keeps_others(w.ifd0, e, TAG_COPYRIGHT);
                law_put_keeps_others(w.ifd0, e, TAG_ARTIST);
            },
            Edit::Copyright(t) => {
                let e = text_entry(TAG_COPYRIGHT, t, w.text_encoding);
                law_set_text_reads_back(w.ifd0, TAG_COPYRIGHT, t, w.text_encoding);
                law_put_keeps_others(w.ifd0, e, TAG_ORIENTATION);
                law_put_keeps_others(w.ifd0, e, TAG_ARTIST);
            },
            Edit::Artist(t) => {
                let e = text_entry(TAG_ARTIST, t, w.text_encoding);
                law_set_text_reads_back(w.ifd0, TAG_ARTIST, t, w.text_encoding);
                law_put_keeps_others(w.ifd0, e, TAG_ORIENTATION);
                law_put_keeps_others(w.ifd0, e, TAG_COPYRIGHT);
            },
        }
    }
}

/// Whether what `w` is written as reads as `w` does, and is a fixed point of
/// reading and writing.
pub open spec fn survives_writing(w: ExifView) -> bool {
    &&& parse_blob(w.blob_bytes()) matches Some(r)
    &&& orientation_of(r.ifd0, r.order) == orientation_of(w.ifd0, w.order)
    &&& text_of(r.ifd0, TAG_COPYRIGHT) == text_of(w.ifd0, TAG_COPYRIGHT)
    &&& text_of(r.ifd0, TAG_ARTIST) == text_of(w.ifd0, TAG_ARTIST)
    &&& r.blob_bytes() == w.blob_bytes()
}

/// Any sequence of edits of a tree that can be written survives being written,
/// where there is room for what they leave.
pub proof fn law_edits_survive_writing(v: ExifView, edits: Seq<Edit>)
    requires
        v.encodable(),
        texts_fit(edits),
        has_room(edited_by(v, edits)),
    ensures
        survives_writing(edited_by(v, edits)),
{
    let w = edited_by(v, edits);
    lemma_sound_with_room(v);
    lemma_edits_keep(v, edits);
    lemma_sound_with_room(w);
    law_written_is_canonical(w);
    law_round_trip(w);
    let r = parse_blob(w.blob_bytes())->0;
    law_canonical_form_reads_alike(w, r, TAG_COPYRIGHT, Category::Other);
    law_canonical_form_reads_alike(w, r, TAG_ARTIST, Category::Other);
}

/// Any sequence of edits of a parsed tree reads back after writing, whatever was
/// parsed, where there is room for what they leave: the blob parses, in the same
/// byte order and framing, and reads as the tree was set.
pub proof fn law_edits_of_parsed_read_back(data: Seq<u8>, x: ExifView, edits: Seq<Edit>)
    requires
        parse_blob(data) == Some(x),
        texts_fit(edits),
        edited_by(x, edits).ifd0.len() + x.pointers0() <= 1000,
        edited_by(x, edits).offsets_fit(),
    ensures
        ({
            let w = edited_by(x, edits);
            &&& parse_blob(w.blob_bytes()) matches Some(r)
            &&& r.order == x.order
            &&& r.had_prefix == x.had_prefix
            &&& orientation_of(r.ifd0, r.order) == last_orientation(
                edits,
                orientation_of(x.ifd0, x.order),
            )
            &&& text_of(r.ifd0, TAG_COPYRIGHT) == last_copyright(
                edits,
                text_of(x.ifd0, TAG_COPYRIGHT),
            )
            &&& text_of(r.ifd0, TAG_ARTIST) == last_artist(edits, text_of(x.ifd0, TAG_ARTIST))
        }),
{
    let w = edited_by(x, edits);
    lemma_parsed_tree(data);
    lemma_read_dir_ok(x.ifd0, tiff_of(data));
    lemma_edits_keep(x, edits);
    law_last_edits_win(x, edits);
    lemma_entry_survives(w, TAG_ORIENTATION);
    lemma_entry_survives(w, TAG_COPYRIGHT);
    lemma_entry_survives(w, TAG_ARTIST);
}

/// Whether entries are what setters put into a new tree: at most one for each
/// tag, all authored, and texts of at most `n` bytes.
spec fn authored(d: Seq<EntryView>, n: int) -> bool {
    &&& forall|i: int|
        0 <= i < d.len() ==> ({
            &&& !(#[trigger] d[i]).borrowed
            &&& d[i].tag == TAG_ORIENTATION || d[i].tag == TAG_COPYRIGHT || d[i].tag == TAG_ARTIST
            &&& d[i].value.len() <= (if d[i].tag == TAG_ORIENTATION {
                4
            } else {
                n + 1
            })
        })
    &&& forall|i: int, j: int|
        0 <= i < j < d.len() ==> (#[trigger] d[i]).tag != (#[trigger] d[j]).tag
}

/// Whether every text has at most `n` bytes.
pub open spec fn texts_within(edits: Seq<Edit>, n: int) -> bool {
    forall|i: int|
        0 <= i < edits.len() ==> match #[trigger] edits[i] {
            Edit::Orientation(_) => true,
            Edit::Copyright(t) | Edit::Artist(t) => vstd::utf8::encode_utf8(t).len() <= n,
        }
}

/// Setters put authored entries into a new tree.
proof fn lemma_edits_are_authored(encoding: TextEncoding, edits: Seq<Edit>, n: int)
    requires
        texts_within(edits, n),
    ensures
        authored(edited_by(empty_tree(encoding), edits).ifd0, n),
    decreases edits.len(),
{
    if edits.len() > 0 {
        let before = edits.drop_last();
        assert forall|i: int| 0 <= i < before.len() implies match #[trigger] before[i] {
            Edit::Orientation(_) => true,
            Edit::Copyright(t) | Edit::Artist(t) => vstd::utf8::encode_utf8(t).len() <= n,
        } by {
            assert(before[i] == edits[i]);
        }
        lemma_edits_are_authored(encoding, before, n);
        let w = edited_by(empty_tree(encoding), before);
        let last = edits[edits.len() - 1];
        lemma_entry_to_put(w, last);
        lemma_first_index(w.ifd0, last.tag());
        let e = entry_to_put(w, last);
        let r = put_entry(w.ifd0, e);
        let k = first_index(w.ifd0, e.tag);
        assert(r[k] == e);
        assert forall|i: int| 0 <= i < r.len() && i != k implies #[trigger] r[i] == w.ifd0[i] by {}
        assert forall|i: int, j: int| 0 <= i < j < r.len() implies (#[trigger] r[i]).tag != (
        #[trigger] r[j]).tag by {
            if k < w.ifd0.len() {
                assert(w.ifd0[k].tag == e.tag);
                assert(w.ifd0[i].tag != w.ifd0[j].tag);
            } else if j < w.ifd0.len() {
                assert(w.ifd0[i].tag != w.ifd0[j].tag);
            }
        }
    }
}

/// An authored directory has at most three entries.
proof fn lemma_authored_is_small(d: Seq<EntryView>, n: int)
    requires
        authored(d, n),
    ensures
        d.len() <= 3,
{
    if d.len() > 3 {
        assert(d[0].tag != d[1].tag && d[0].tag != d[2].tag && d[0].tag != d[3].tag);
        assert(d[1].tag != d[2].tag && d[1].tag != d[3].tag && d[2].tag != d[3].tag);
    }
}

/// Where every tag occurs once, one entry has it.
proof fn lemma_once(d: Seq<EntryView>, tag: u16)
    requires
        forall|i: int, j: int|
            0 <= i < j < d.len() ==> (#[trigger] d[i]).tag != (#[trigger] d[j]).tag,
    ensures
        d.filter(is_tag(tag)).len() <= 1,
    decreases d.len(),
{
    reveal(Seq::filter);
    if d.len() > 0 {
        let p = d.drop_last();
        lemma_once(p, tag);
        if d.last().tag == tag {
            assert forall|i: int| 0 <= i < p.len() implies !is_tag(tag)(#[trigger] p[i]) by {
                assert(d[i].tag != d[d.len() - 1].tag);
            }
            lemma_filter_none(p, is_tag(tag));
        }
    }
}

/// Two entries with a tag make two.
proof fn lemma_twice(d: Seq<EntryView>, i: int, j: int)
    requires
        0 <= i < j < d.len(),
        d[i].tag == d[j].tag,
    ensures
        d.filter(is_tag(d[i].tag)).len() >= 2,
    decreases d.len(),
{
    reveal(Seq::filter);
    let p = d.drop_last();
    let q = is_tag(d[i].tag);
    if j == p.len() {
        assert(q(p[i]));
        p.lemma_filter_contains(q, i);
    } else {
        lemma_twice(p, i, j);
    }
}

/// An authored directory is authored in tag order.
proof fn lemma_authored_sorted(d: Seq<EntryView>, n: int)
    requires
        authored(d, n),
    ensures
        authored(sort_by_tag(d), n),
        tag_sorted(sort_by_tag(d)),
{
    let s = sort_by_tag(d);
    lemma_sort_sorted(d);
    assert forall|i: int| 0 <= i < s.len() implies ({
        &&& !(#[trigger] s[i]).borrowed
        &&& s[i].tag == TAG_ORIENTATION || s[i].tag == TAG_COPYRIGHT || s[i].tag == TAG_ARTIST
        &&& s[i].value.len() <= (if s[i].tag == TAG_ORIENTATION {
            4
        } else {
            n + 1
        })
    }) by {
        assert(d.contains(s[i]));
        let k = d.index_of(s[i]);
        assert(d[k] == s[i]);
    }
    assert forall|i: int, j: int| 0 <= i < j < s.len() implies (#[trigger] s[i]).tag != (
    #[trigger] s[j]).tag by {
        if s[i].tag == s[j].tag {
            lemma_twice(s, i, j);
            lemma_sort_keeps_tag(d, s[i].tag);
            lemma_once(d, s[i].tag);
        }
    }
}

/// Before an out-of-line entry of an authored directory in tag order there is at
/// most one other.
proof fn lemma_authored_slot(s: Seq<EntryView>, n: int, i: int)
    requires
        authored(s, n),
        tag_sorted(s),
        0 <= n,
        0 <= i < s.len(),
        out_of_line(s[i]),
    ensures
        slot(s.take(i), s[i]) <= n + 2,
{
    let j = holder_of(s, i);
    assert(j == i);
    lemma_authored_is_small(s, n);
    assert forall|k: int| 0 <= k < i implies (#[trigger] s[k]).tag < s[i].tag by {
        assert(s[k].tag <= s[i].tag);
        assert(s[k].tag != s[i].tag);
    }
    reveal_with_fuel(ext_data, 3);
    assert(ext_data(s.take(0)).len() == 0);
    if i == 1 {
        assert(s.take(1).drop_last() =~= s.take(0));
        assert(s.take(1).last() == s[0]);
    }
    if i == 2 {
        assert(s[0].tag < s[1].tag);
        assert(s[0].tag == TAG_ORIENTATION);
        assert(s.take(1).drop_last() =~= s.take(0));
        assert(s.take(1).last() == s[0]);
        assert(s.take(2).drop_last() =~= s.take(1));
        assert(s.take(2).last() == s[1]);
    }
}

/// What setters put into a new tree has 32-bit offsets, where no text comes
/// within 64 bytes of 4 GiB.
proof fn lemma_authored_fits(encoding: TextEncoding, edits: Seq<Edit>)
    requires
        texts_within(edits, u32::MAX - 64),
    ensures
        edited_by(empty_tree(encoding), edits).offsets_fit(),
        texts_fit(edits),
{
    let n = u32::MAX - 64;
    let v = empty_tree(encoding);
    let w = edited_by(v, edits);
    assert forall|i: int| 0 <= i < edits.len() implies (#[trigger] edits[i]).fits() by {}
    law_empty_tree_is_encodable(encoding);
    lemma_edits_keep(v, edits);
    lemma_edits_are_authored(encoding, edits, n);
    lemma_authored_is_small(w.ifd0, n);
    assert(w.ifd0 + w.ptrs0() =~= w.ifd0);
    let s = sort_by_tag(w.ifd0);
    lemma_authored_sorted(w.ifd0, n);
    assert forall|i: int| 0 <= i < s.len() && out_of_line(#[trigger] s[i]) implies 8 + table_len(
        w.ifd0.len() as int,
    ) + slot(s.take(i), s[i]) <= u32::MAX by {
        lemma_authored_slot(s, n, i);
    }
}

/// Setters put at most three entries into a new tree.
proof fn lemma_edits_are_short(encoding: TextEncoding, edits: Seq<Edit>)
    requires
        texts_fit(edits),
    ensures
        edited_by(empty_tree(encoding), edits).ifd0.len() <= 3,
{
    let n: int = u32::MAX - 1;
    assert forall|i: int| 0 <= i < edits.len() implies match #[trigger] edits[i] {
        Edit::Orientation(_) => true,
        Edit::Copyright(t) | Edit::Artist(t) => vstd::utf8::encode_utf8(t).len() <= n,
    } by {
        assert(edits[i].fits());
    }
    lemma_edits_are_authored(encoding, edits, n);
    lemma_authored_is_small(edited_by(empty_tree(encoding), edits).ifd0, n);
}

/// What any sequence of setters makes of a new tree survives being written,
/// where its offsets are 32-bit ones: it parses, reads as it was set,
/// and is a fixed point of reading and writing.
pub proof fn law_authored_survives_writing(encoding: TextEncoding, edits: Seq<Edit>)
    requires
        texts_fit(edits),
        edited_by(empty_tree(encoding), edits).offsets_fit(),
    ensures
        survives_writing(edited_by(empty_tree(encoding), edits)),
{
    let v = empty_tree(encoding);
    law_empty_tree_is_encodable(encoding);
    lemma_sound_with_room(v);
    lemma_edits_keep(v, edits);
    lemma_edits_are_short(encoding, edits);
    law_edits_survive_writing(v, edits);
}

/// What any sequence of setters makes of a new tree survives being written,
/// where no text comes within 64 bytes of 4 GiB.
pub proof fn law_authored_texts_survive_writing(encoding: TextEncoding, edits: Seq<Edit>)
    requires
        texts_within(edits, u32::MAX - 64),
    ensures
        survives_writing(edited_by(empty_tree(encoding), edits)),
{
    lemma_authored_fits(encoding, edits);
    law_authored_survives_writing(encoding, edits);
}

} // verus!
