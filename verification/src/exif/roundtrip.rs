//! Reading back a written tree.
use super::codec::{lemma_bytes32_reads_back, ByteOrder};
use super::ext::{lemma_similar_same, lemma_slot_holds, same_entries, same_entry, similar};
use super::layout::{
    block_len, ext_data, header_bytes, ifd_bytes, lemma_sort_len, out_of_line, pointer_entry, slot,
    slots_fit, sort_by_tag, sub_bytes, table_len,
};
use super::model::{
    first_index, first_with, pointer_in, uint_of, without_pointer, without_tags, EntryView,
    ExifView,
};
use super::provenance::consistent;
use super::reread::{by_tag, found_at, lemma_ifd_len, lemma_similar_filter};
use super::sorting::{
    lemma_ext_with_pointers, lemma_filter_all, lemma_filter_elem, lemma_filter_none,
    lemma_sort_filter, lemma_sort_of_sorted, lemma_sort_sorted,
};
use super::tags::{TAG_EXIF_IFD, TAG_GPS_IFD, TAG_INTEROP_IFD, TAG_THUMB_LENGTH, TAG_THUMB_OFFSET};
use super::tree::lemma_first_index;
use vstd::prelude::*;

verus! {

broadcast use {super::codec::lemma_bytes16_len, super::codec::lemma_bytes32_len};

/// Whether a directory's entries can be written and read back: types and
/// counts agree with the values.
pub open spec fn dir_ok(d: Seq<EntryView>) -> bool {
    forall|i: int| 0 <= i < d.len() ==> consistent(#[trigger] d[i])
}

/// [`dir_ok`] of a directory that may be absent.
pub open spec fn opt_dir_ok(d: Option<Seq<EntryView>>) -> bool {
    d matches Some(es) ==> dir_ok(es)
}

/// Whether no entry carries `tag`.
pub open spec fn lacks_tag(d: Seq<EntryView>, tag: u16) -> bool {
    forall|i: int| 0 <= i < d.len() ==> (#[trigger] d[i]).tag != tag
}

/// Whether reading `d` back finds the pointer `tag` only if it is synthesized:
/// where it is, no entry carries the tag, and where it is not, no entry is
/// taken for it.
pub open spec fn pointer_settled(
    d: Seq<EntryView>,
    tag: u16,
    synthesized: bool,
    order: ByteOrder,
) -> bool {
    if synthesized {
        lacks_tag(d, tag)
    } else {
        pointer_in(d, tag, order) is None
    }
}

/// Whether the entries of a thumbnail directory locate a thumbnail inside `len`
/// bytes.
pub open spec fn locates_thumbnail(d: Seq<EntryView>, order: ByteOrder, len: int) -> bool {
    uint_of(d, TAG_THUMB_OFFSET, order) matches Some(o) && uint_of(
        d,
        TAG_THUMB_LENGTH,
        order,
    ) matches Some(l) && o + l <= len
}

impl ExifView {
    /// Whether reading the written tree back finds the thumbnail that it holds,
    /// and none otherwise.
    pub open spec fn thumbnail_settled(self) -> bool {
        self.ifd1 matches Some(d) ==> if self.thumbnail is Some {
            lacks_tag(d, TAG_THUMB_OFFSET) && lacks_tag(d, TAG_THUMB_LENGTH)
        } else {
            !locates_thumbnail(d, self.order, self.tiff_len())
        }
    }

    /// Whether the tree survives being written and read back. Trees that
    /// [`pruned`](Self::pruned) makes of parsed ones do, within the size that
    /// 32-bit offsets allow, and so do authored ones.
    pub open spec fn encodable(self) -> bool {
        &&& dir_ok(self.ifd0)
        &&& opt_dir_ok(self.exif_ifd)
        &&& opt_dir_ok(self.gps_ifd)
        &&& opt_dir_ok(self.ifd1)
        &&& self.within_caps()
        &&& self.offsets_fit()
        &&& self.thumbnail is Some ==> self.ifd1 is Some
        &&& pointer_settled(self.ifd0, TAG_EXIF_IFD, self.exif_ifd is Some, self.order)
        &&& pointer_settled(self.ifd0, TAG_GPS_IFD, self.gps_ifd is Some, self.order)
        &&& self.exif_ifd matches Some(d) ==> pointer_in(d, TAG_INTEROP_IFD, self.order) is None
        &&& self.thumbnail_settled()
    }
}

/// Whether `r` holds the entries of `d` in tag order, sharing values alike.
pub open spec fn reread_as(d: Option<Seq<EntryView>>, r: Option<Seq<EntryView>>) -> bool {
    match (d, r) {
        (Some(x), Some(y)) => similar(sort_by_tag(x), y),
        (None, None) => true,
        _ => false,
    }
}

impl ExifView {
    /// Whether `r` is the tree in canonical form: the same byte order, framing
    /// and thumbnail, and every directory's entries in tag order.
    pub open spec fn canonically(self, r: ExifView) -> bool {
        &&& r.order == self.order
        &&& r.had_prefix == self.had_prefix
        &&& similar(sort_by_tag(self.ifd0), r.ifd0)
        &&& reread_as(self.exif_ifd, r.exif_ifd)
        &&& reread_as(self.gps_ifd, r.gps_ifd)
        &&& reread_as(self.ifd1, r.ifd1)
        &&& r.thumbnail == self.thumbnail
    }
}

// ── First entries ───────────────────────────────────────────────────────────

/// The predicate that picks out one tag.
pub open spec fn is_tag(tag: u16) -> spec_fn(EntryView) -> bool {
    |e: EntryView| e.tag == tag
}

/// The first entry with a tag heads the entries with that tag.
pub proof fn lemma_first_of_tag(d: Seq<EntryView>, tag: u16)
    ensures
        first_with(d, tag) == (if d.filter(is_tag(tag)).len() > 0 {
            Some(d.filter(is_tag(tag))[0])
        } else {
            None
        }),
{
    let p = is_tag(tag);
    lemma_first_index(d, tag);
    let k = first_index(d, tag);
    if k == d.len() {
        lemma_filter_none(d, p);
    } else {
        let a = d.take(k);
        let b = seq![d[k]];
        let c = d.skip(k + 1);
        assert(d =~= a + b + c);
        Seq::filter_distributes_over_add(a + b, c, p);
        Seq::filter_distributes_over_add(a, b, p);
        lemma_filter_none(a, p);
        lemma_filter_all(b, p);
        assert(d.filter(p)[0] == d[k]);
    }
}

/// Sorting keeps the entries of each tag, in their order.
pub proof fn lemma_sort_keeps_tag(d: Seq<EntryView>, tag: u16)
    ensures
        sort_by_tag(d).filter(is_tag(tag)) == d.filter(is_tag(tag)),
        first_with(sort_by_tag(d), tag) == first_with(d, tag),
{
    let p = is_tag(tag);
    lemma_sort_filter(d, p);
    let f = d.filter(p);
    assert forall|i: int, j: int| 0 <= i <= j < f.len() implies (#[trigger] f[i]).tag <= (
    #[trigger] f[j]).tag by {
        lemma_filter_elem(d, p, i);
        lemma_filter_elem(d, p, j);
    }
    lemma_sort_of_sorted(f);
    lemma_first_of_tag(d, tag);
    lemma_first_of_tag(sort_by_tag(d), tag);
}

/// Equal entries are first at the same place.
pub proof fn lemma_same_first(a: Seq<EntryView>, b: Seq<EntryView>, tag: u16)
    requires
        same_entries(a, b),
    ensures
        first_index(a, tag) == first_index(b, tag),
        first_with(a, tag) is Some <==> first_with(b, tag) is Some,
        first_with(a, tag) is Some ==> same_entry(first_with(a, tag)->0, first_with(b, tag)->0),
{
    lemma_first_index(a, tag);
    lemma_first_index(b, tag);
    let i = first_index(a, tag);
    let j = first_index(b, tag);
    if i < j {
        assert(same_entry(a[i], b[i]));
    }
    if j < i {
        assert(same_entry(a[j], b[j]));
    }
    if i < a.len() {
        assert(same_entry(a[i], b[i]));
    }
}

/// Lists that sort to the same entries have the same first entries.
pub proof fn lemma_reread_first(d: Seq<EntryView>, r: Seq<EntryView>, tag: u16)
    requires
        same_entries(sort_by_tag(d), r),
    ensures
        first_with(d, tag) is Some <==> first_with(r, tag) is Some,
        first_with(d, tag) is Some ==> same_entry(first_with(d, tag)->0, first_with(r, tag)->0),
{
    lemma_sort_keeps_tag(d, tag);
    lemma_same_first(sort_by_tag(d), r, tag);
}

/// Removing the only entry with a tag is filtering the tag out.
pub proof fn lemma_remove_only(d: Seq<EntryView>, tag: u16)
    requires
        d.filter(is_tag(tag)).len() == 1,
    ensures
        first_index(d, tag) < d.len(),
        d.remove(first_index(d, tag)) == without_tags(d, tag, tag),
        lacks_tag(without_tags(d, tag, tag), tag),
{
    let p = is_tag(tag);
    lemma_first_index(d, tag);
    lemma_first_of_tag(d, tag);
    let k = first_index(d, tag);
    if k == d.len() {
        lemma_filter_none(d, p);
    }
    let a = d.take(k);
    let b = seq![d[k]];
    let c = d.skip(k + 1);
    assert(d =~= a + b + c);
    Seq::filter_distributes_over_add(a + b, c, p);
    Seq::filter_distributes_over_add(a, b, p);
    lemma_filter_none(a, p);
    lemma_filter_all(b, p);
    assert(c.filter(p).len() == 0);
    assert forall|i: int| 0 <= i < c.len() implies (#[trigger] c[i]).tag != tag by {
        if c[i].tag == tag {
            c.lemma_filter_contains(p, i);
        }
    }
    let q = |e: EntryView| e.tag != tag && e.tag != tag;
    Seq::filter_distributes_over_add(a + b, c, q);
    Seq::filter_distributes_over_add(a, b, q);
    lemma_filter_all(a, q);
    lemma_filter_all(c, q);
    lemma_filter_none(b, q);
    assert(d.remove(k) =~= a + c);
    assert(a.filter(q) + b.filter(q) + c.filter(q) =~= a + c);
    let f = without_tags(d, tag, tag);
    assert forall|i: int| 0 <= i < f.len() implies (#[trigger] f[i]).tag != tag by {
        lemma_filter_elem(d, q, i);
    }
}

/// Filtering by tag finds as many entries in lists of the same entries.
pub proof fn lemma_same_filter_len(
    a: Seq<EntryView>,
    b: Seq<EntryView>,
    p: spec_fn(EntryView) -> bool,
)
    requires
        similar(a, b),
        by_tag(p),
    ensures
        a.filter(p).len() == b.filter(p).len(),
{
    lemma_similar_filter(a, b, p);
    lemma_similar_same(a.filter(p), b.filter(p));
}

/// One step of reading a first directory back: the pointer `tag`, if it is
/// among the entries `d` that were written, is found and taken out.
pub proof fn lemma_pointer_step(
    d: Seq<EntryView>,
    raw: Seq<EntryView>,
    tag: u16,
    v: u32,
    synthesized: bool,
    order: ByteOrder,
)
    requires
        similar(sort_by_tag(d), raw),
        synthesized ==> d.filter(is_tag(tag)) == seq![pointer_entry(tag, v, order)],
        !synthesized ==> pointer_in(d, tag, order) is None,
    ensures
        pointer_in(raw, tag, order) == (if synthesized {
            Some(v)
        } else {
            None
        }),
        similar(
            sort_by_tag(
                if synthesized {
                    without_tags(d, tag, tag)
                } else {
                    d
                },
            ),
            without_pointer(raw, tag, order),
        ),
        synthesized ==> lacks_tag(without_pointer(raw, tag, order), tag),
{
    lemma_similar_same(sort_by_tag(d), raw);
    lemma_reread_first(d, raw, tag);
    if synthesized {
        lemma_first_of_tag(d, tag);
        lemma_bytes32_reads_back(v, order);
        lemma_sort_keeps_tag(d, tag);
        lemma_same_filter_len(sort_by_tag(d), raw, is_tag(tag));
        lemma_remove_only(raw, tag);
        let q = |e: EntryView| e.tag != tag && e.tag != tag;
        lemma_similar_filter(sort_by_tag(d), raw, q);
        lemma_sort_filter(d, q);
    }
}

/// Filtering out a tag that is not there changes nothing.
pub proof fn lemma_without_absent(d: Seq<EntryView>, a: u16, b: u16)
    requires
        lacks_tag(d, a),
        lacks_tag(d, b),
    ensures
        without_tags(d, a, b) == d,
{
    lemma_filter_all(d, |e: EntryView| e.tag != a && e.tag != b);
}

// ── Items of a directory ────────────────────────────────────────────────────

/// Whether all of `ptrs` are synthesized pointers.
pub open spec fn all_pointers(ptrs: Seq<EntryView>) -> bool {
    forall|i: int|
        0 <= i < ptrs.len() ==> consistent(#[trigger] ptrs[i]) && !out_of_line(ptrs[i])
}

/// Entries that can be written still can with pointers among them, sorted.
pub proof fn lemma_items_ok(d: Seq<EntryView>, ptrs: Seq<EntryView>)
    requires
        dir_ok(d),
        all_pointers(ptrs),
    ensures
        dir_ok(sort_by_tag(d + ptrs)),
        sort_by_tag(d + ptrs).len() == d.len() + ptrs.len(),
        ext_data(sort_by_tag(d + ptrs)) == ext_data(sort_by_tag(d)),
{
    let all = d + ptrs;
    let s = sort_by_tag(all);
    lemma_sort_len(all);
    lemma_sort_sorted(all);
    lemma_ext_with_pointers(d, ptrs);
    assert forall|i: int| 0 <= i < s.len() implies consistent(#[trigger] s[i]) && (out_of_line(s[i])
        ==> d.contains(s[i])) by {
        assert(all.contains(s[i]));
        let k = all.index_of(s[i]);
        assert(all[k] == s[i]);
        if k < d.len() {
            assert(d[k] == s[i]);
        } else {
            assert(ptrs[k - d.len()] == s[i]);
        }
    }
}

/// A directory without pointers can be written as it is.
pub proof fn lemma_sorted_ok(d: Seq<EntryView>)
    requires
        dir_ok(d),
    ensures
        dir_ok(sort_by_tag(d)),
        sort_by_tag(d).len() == d.len(),
{
    let none = Seq::<EntryView>::empty();
    assert(d + none =~= d);
    lemma_items_ok(d, none);
}

/// A synthesized pointer is consistent and inline.
pub proof fn lemma_pointer_ok(tag: u16, v: u32, order: ByteOrder)
    ensures
        consistent(pointer_entry(tag, v, order)),
        !out_of_line(pointer_entry(tag, v, order)),
{
    let e = pointer_entry(tag, v, order);
    lemma_bytes32_reads_back(v, order);
    assert(super::tags::element_size(e.kind) == Some(4nat));
    assert(e.count * 4nat == 4);
}

/// The pointers of the first directory.
pub proof fn lemma_ptrs0(v: ExifView)
    ensures
        all_pointers(v.ptrs0()),
        v.ptrs0().len() == v.pointers0(),
        v.ptrs0().filter(is_tag(TAG_EXIF_IFD)) == (if v.exif_ifd is Some {
            seq![pointer_entry(TAG_EXIF_IFD, v.exif_off() as u32, v.order)]
        } else {
            Seq::empty()
        }),
        without_tags(v.ptrs0(), TAG_EXIF_IFD, TAG_EXIF_IFD) == (if v.gps_ifd is Some {
            seq![pointer_entry(TAG_GPS_IFD, v.gps_off() as u32, v.order)]
        } else {
            Seq::empty()
        }),
        v.exif_ifd is None ==> v.ptrs0() == (if v.gps_ifd is Some {
            seq![pointer_entry(TAG_GPS_IFD, v.gps_off() as u32, v.order)]
        } else {
            Seq::empty()
        }),
{
    lemma_pointer_ok(TAG_EXIF_IFD, v.exif_off() as u32, v.order);
    lemma_pointer_ok(TAG_GPS_IFD, v.gps_off() as u32, v.order);
    let e = seq![pointer_entry(TAG_EXIF_IFD, v.exif_off() as u32, v.order)];
    let g = seq![pointer_entry(TAG_GPS_IFD, v.gps_off() as u32, v.order)];
    let none = Seq::<EntryView>::empty();
    let x = if v.exif_ifd is Some {
        e
    } else {
        none
    };
    let y = if v.gps_ifd is Some {
        g
    } else {
        none
    };
    let p = is_tag(TAG_EXIF_IFD);
    let q = |en: EntryView| en.tag != TAG_EXIF_IFD && en.tag != TAG_EXIF_IFD;
    Seq::filter_distributes_over_add(x, y, p);
    Seq::filter_distributes_over_add(x, y, q);
    lemma_filter_all(x, p);
    lemma_filter_none(y, p);
    lemma_filter_none(x, q);
    lemma_filter_all(y, q);
    assert(x + none =~= x);
    assert(none + y =~= y);
    if v.exif_ifd is None {
        assert(v.ptrs0() =~= y);
    }
}

/// The pointers of the thumbnail directory.
pub proof fn lemma_ptrs1(v: ExifView)
    ensures
        all_pointers(v.ptrs1()),
        v.ptrs1().len() == v.pointers1(),
{
    if let Some(t) = v.thumbnail {
        lemma_pointer_ok(TAG_THUMB_OFFSET, v.thumb_off() as u32, v.order);
        lemma_pointer_ok(TAG_THUMB_LENGTH, t.len() as u32, v.order);
    }
}

// ── Sections of the stream ──────────────────────────────────────────────────

/// In a concatenation every part is found behind those before it.
pub proof fn lemma_found_parts(
    a: Seq<u8>,
    b: Seq<u8>,
    c: Seq<u8>,
    d: Seq<u8>,
    e: Seq<u8>,
    f: Seq<u8>,
)
    ensures
        found_at(a + b + c + d + e + f, 0, a),
        found_at(a + b + c + d + e + f, a.len() as int, b),
        found_at(a + b + c + d + e + f, (a.len() + b.len()) as int, c),
        found_at(a + b + c + d + e + f, (a.len() + b.len() + c.len()) as int, d),
        found_at(a + b + c + d + e + f, (a.len() + b.len() + c.len() + d.len()) as int, e),
        found_at(
            a + b + c + d + e + f,
            (a.len() + b.len() + c.len() + d.len() + e.len()) as int,
            f,
        ),
{
    let s = a + b + c + d + e + f;
    let n1 = a.len() as int;
    let n2 = n1 + b.len();
    let n3 = n2 + c.len();
    let n4 = n3 + d.len();
    let n5 = n4 + e.len();
    let n6 = n5 + f.len();
    assert(s.subrange(0, n1) =~= a);
    assert(s.subrange(n1, n2) =~= b);
    assert(s.subrange(n2, n3) =~= c);
    assert(s.subrange(n3, n4) =~= d);
    assert(s.subrange(n4, n5) =~= e);
    assert(s.subrange(n5, n6) =~= f);
}

/// Length of a directory without pointers.
pub proof fn lemma_sub_len(d: Option<Seq<EntryView>>, off: int, order: ByteOrder)
    ensures
        sub_bytes(d, off, order).len() == (match d {
            Some(es) => block_len(es, 0),
            None => 0,
        }),
{
    if let Some(es) = d {
        lemma_sort_len(es);
        lemma_ifd_len(sort_by_tag(es), off + table_len(es.len() as int), 0, order);
    }
}

/// Length of a directory with pointers.
pub proof fn lemma_block_len(
    d: Seq<EntryView>,
    ptrs: Seq<EntryView>,
    ext_base: int,
    next: u32,
    order: ByteOrder,
)
    requires
        all_pointers(ptrs),
    ensures
        ifd_bytes(sort_by_tag(d + ptrs), ext_base, next, order).len() == block_len(
            d,
            ptrs.len() as int,
        ),
{
    lemma_sort_len(d + ptrs);
    lemma_ext_with_pointers(d, ptrs);
    lemma_ifd_len(sort_by_tag(d + ptrs), ext_base, next, order);
}

/// Length of the first directory.
proof fn lemma_ifd0_len(v: ExifView)
    ensures
        v.ifd0_bytes().len() == block_len(v.ifd0, v.pointers0()),
{
    lemma_ptrs0(v);
    let next: u32 = if v.ifd1 is Some {
        v.ifd1_off() as u32
    } else {
        0
    };
    lemma_block_len(
        v.ifd0,
        v.ptrs0(),
        8 + table_len(v.ifd0.len() + v.pointers0()),
        next,
        v.order,
    );
}

/// Length of the thumbnail directory.
proof fn lemma_ifd1_len(v: ExifView)
    ensures
        v.ifd1_bytes().len() == v.thumb_off() - v.ifd1_off(),
{
    lemma_ptrs1(v);
    if let Some(d) = v.ifd1 {
        lemma_block_len(
            d,
            v.ptrs1(),
            v.ifd1_off() + table_len(d.len() + v.pointers1()),
            0,
            v.order,
        );
    }
}

/// Slots are among the out-of-line bytes.
proof fn lemma_slots_fit(items: Seq<EntryView>, ext_base: int)
    requires
        ext_base + ext_data(items).len() <= u32::MAX,
    ensures
        slots_fit(items, ext_base),
{
    assert forall|i: int| 0 <= i < items.len() && out_of_line(#[trigger] items[i]) implies ext_base
        + slot(items.take(i), items[i]) <= u32::MAX by {
        lemma_slot_holds(items, i);
    }
}

/// In a stream of at most 4 GiB all offsets are 32-bit ones.
pub proof fn lemma_small_fits(v: ExifView)
    requires
        v.tiff_len() <= u32::MAX,
        v.thumbnail is Some ==> v.ifd1 is Some,
    ensures
        v.offsets_fit(),
{
    lemma_ptrs0(v);
    lemma_ptrs1(v);
    lemma_ext_with_pointers(v.ifd0, v.ptrs0());
    lemma_slots_fit(
        sort_by_tag(v.ifd0 + v.ptrs0()),
        8 + table_len(v.ifd0.len() + v.pointers0()),
    );
    if let Some(d) = v.exif_ifd {
        lemma_slots_fit(sort_by_tag(d), v.exif_off() + table_len(d.len() as int));
    }
    if let Some(d) = v.gps_ifd {
        lemma_slots_fit(sort_by_tag(d), v.gps_off() + table_len(d.len() as int));
    }
    if let Some(d) = v.ifd1 {
        lemma_ext_with_pointers(d, v.ptrs1());
        lemma_slots_fit(
            sort_by_tag(d + v.ptrs1()),
            v.ifd1_off() + table_len(d.len() + v.pointers1()),
        );
    }
}

/// How long the sections of the stream are.
pub proof fn lemma_section_lens(v: ExifView)
    ensures
        header_bytes(v.order).len() == 8,
        v.ifd0_bytes().len() == block_len(v.ifd0, v.pointers0()),
        sub_bytes(v.exif_ifd, v.exif_off(), v.order).len() == v.gps_off() - v.exif_off(),
        sub_bytes(v.gps_ifd, v.gps_off(), v.order).len() == v.ifd1_off() - v.gps_off(),
        v.ifd1_bytes().len() == v.thumb_off() - v.ifd1_off(),
{
    lemma_ifd0_len(v);
    lemma_sub_len(v.exif_ifd, v.exif_off(), v.order);
    lemma_sub_len(v.gps_ifd, v.gps_off(), v.order);
    lemma_ifd1_len(v);
}

/// What follows the directories.
pub open spec fn tail_bytes(v: ExifView) -> Seq<u8> {
    match v.thumbnail {
        Some(t) => t,
        None => Seq::empty(),
    }
}

/// Where the sections of the stream are found, and how long it is.
pub proof fn lemma_sections(v: ExifView)
    ensures
        v.tiff_bytes().len() == v.tiff_len(),
        found_at(v.tiff_bytes(), 0, header_bytes(v.order)),
        found_at(v.tiff_bytes(), 8, v.ifd0_bytes()),
        found_at(v.tiff_bytes(), v.exif_off(), sub_bytes(v.exif_ifd, v.exif_off(), v.order)),
        found_at(v.tiff_bytes(), v.gps_off(), sub_bytes(v.gps_ifd, v.gps_off(), v.order)),
        found_at(v.tiff_bytes(), v.ifd1_off(), v.ifd1_bytes()),
        found_at(v.tiff_bytes(), v.thumb_off(), tail_bytes(v)),
{
    lemma_section_lens(v);
    let a = header_bytes(v.order);
    let b = v.ifd0_bytes();
    let c = sub_bytes(v.exif_ifd, v.exif_off(), v.order);
    let d = sub_bytes(v.gps_ifd, v.gps_off(), v.order);
    let e = v.ifd1_bytes();
    let f = tail_bytes(v);
    lemma_found_parts(a, b, c, d, e, f);
    lemma_six_len(a, b, c, d, e, f);
    assert(v.tiff_bytes() == a + b + c + d + e + f);
    assert(a.len() + b.len() == v.exif_off());
    assert(a.len() + b.len() + c.len() == v.gps_off());
    assert(a.len() + b.len() + c.len() + d.len() == v.ifd1_off());
    assert(a.len() + b.len() + c.len() + d.len() + e.len() == v.thumb_off());
}

/// Length of a concatenation.
proof fn lemma_six_len(
    a: Seq<u8>,
    b: Seq<u8>,
    c: Seq<u8>,
    d: Seq<u8>,
    e: Seq<u8>,
    f: Seq<u8>,
)
    ensures
        (a + b + c + d + e + f).len() == a.len() + b.len() + c.len() + d.len() + e.len() + f.len(),
{
}

/// The length that [`Exif::serialized_len`](super::tree::Exif::serialized_len)
/// gives is the length of what
/// [`Exif::to_bytes`](super::tree::Exif::to_bytes) makes.
pub proof fn law_serialized_len(v: ExifView)
    ensures
        v.blob_bytes().len() == v.blob_len(),
{
    lemma_sections(v);
}

} // verus!
