//! The canonical form of a tree: writing it gives the same blob.
use super::ext::{lemma_similar_ext, lemma_similar_ifd, lemma_similar_same, same_entry, similar};
use super::layout::{
    block_len, ext_data, header_bytes, ifd_bytes, sort_by_tag, sub_bytes, table_len,
};
use super::model::{exif_prefix, has_prefix, tiff_of, EntryView, ExifView};
use super::reread::lemma_similar_with_pointers;
use super::roundtrip::{all_pointers, lemma_ptrs0, lemma_ptrs1, lemma_sections, reread_as};
use super::sorting::{lemma_sort_of_sorted, lemma_sort_sorted};
use vstd::prelude::*;

verus! {

/// What is read back in tag order sorts to itself, and so alike.
pub proof fn lemma_reread_sorts_alike(d: Seq<EntryView>, r: Seq<EntryView>)
    requires
        similar(sort_by_tag(d), r),
    ensures
        sort_by_tag(r) == r,
        similar(sort_by_tag(d), sort_by_tag(r)),
        ext_data(sort_by_tag(r)) == ext_data(sort_by_tag(d)),
        r.len() == d.len(),
{
    lemma_sort_sorted(d);
    super::layout::lemma_sort_len(d);
    lemma_similar_same(sort_by_tag(d), r);
    assert forall|i: int, j: int| 0 <= i <= j < r.len() implies (#[trigger] r[i]).tag <= (
    #[trigger] r[j]).tag by {
        assert(same_entry(sort_by_tag(d)[i], r[i]));
        assert(same_entry(sort_by_tag(d)[j], r[j]));
    }
    lemma_sort_of_sorted(r);
    lemma_similar_ext(sort_by_tag(d), r);
}

/// A directory without pointers and its canonical form are written alike.
proof fn lemma_sub_alike(d: Option<Seq<EntryView>>, r: Option<Seq<EntryView>>, off: int, v: ExifView)
    requires
        reread_as(d, r),
    ensures
        sub_bytes(d, off, v.order) == sub_bytes(r, off, v.order),
        d is Some <==> r is Some,
        d is Some ==> block_len(d->0, 0) == block_len(r->0, 0),
{
    if let Some(x) = d {
        let y = r->0;
        lemma_reread_sorts_alike(x, y);
        lemma_similar_ifd(
            sort_by_tag(x),
            sort_by_tag(y),
            off + table_len(x.len() as int),
            0,
            v.order,
        );
    }
}

/// A directory with pointers and its canonical form are written alike.
proof fn lemma_block_alike(
    d: Seq<EntryView>,
    r: Seq<EntryView>,
    ptrs: Seq<EntryView>,
    ext_base: int,
    next: u32,
    v: ExifView,
)
    requires
        similar(sort_by_tag(d), r),
        all_pointers(ptrs),
    ensures
        ifd_bytes(sort_by_tag(d + ptrs), ext_base, next, v.order) == ifd_bytes(
            sort_by_tag(r + ptrs),
            ext_base,
            next,
            v.order,
        ),
{
    lemma_reread_sorts_alike(d, r);
    lemma_similar_with_pointers(d, r, ptrs);
    lemma_similar_ifd(sort_by_tag(d + ptrs), sort_by_tag(r + ptrs), ext_base, next, v.order);
}

/// A tree and its canonical form have the same layout.
proof fn lemma_same_layout(v: ExifView, r: ExifView)
    requires
        v.canonically(r),
    ensures
        r.pointers0() == v.pointers0(),
        r.pointers1() == v.pointers1(),
        r.ifd0.len() == v.ifd0.len(),
        r.exif_off() == v.exif_off(),
        r.gps_off() == v.gps_off(),
        r.ifd1_off() == v.ifd1_off(),
        r.thumb_off() == v.thumb_off(),
{
    lemma_reread_sorts_alike(v.ifd0, r.ifd0);
    lemma_sub_alike(v.exif_ifd, r.exif_ifd, 0, v);
    lemma_sub_alike(v.gps_ifd, r.gps_ifd, 0, v);
    if let Some(d) = v.ifd1 {
        lemma_reread_sorts_alike(d, r.ifd1->0);
    }
}

/// A tree and its canonical form have the same first directory.
proof fn lemma_same_ifd0(v: ExifView, r: ExifView)
    requires
        v.canonically(r),
    ensures
        r.ifd0_bytes() == v.ifd0_bytes(),
{
    lemma_same_layout(v, r);
    lemma_ptrs0(v);
    assert(r.ptrs0() == v.ptrs0());
    let next: u32 = if v.ifd1 is Some {
        v.ifd1_off() as u32
    } else {
        0
    };
    let base = 8 + table_len(v.ifd0.len() + v.pointers0());
    lemma_block_alike(v.ifd0, r.ifd0, v.ptrs0(), base, next, v);
}

/// A tree and its canonical form have the same thumbnail directory.
proof fn lemma_same_ifd1(v: ExifView, r: ExifView)
    requires
        v.canonically(r),
    ensures
        r.ifd1_bytes() == v.ifd1_bytes(),
{
    lemma_same_layout(v, r);
    lemma_ptrs1(v);
    assert(r.ptrs1() == v.ptrs1());
    if let Some(d) = v.ifd1 {
        lemma_reread_sorts_alike(d, r.ifd1->0);
        let base = v.ifd1_off() + table_len(d.len() + v.pointers1());
        lemma_block_alike(d, r.ifd1->0, v.ptrs1(), base, 0, v);
    }
}

/// A tree and its canonical form are written as the same blob.
pub proof fn lemma_same_blob(v: ExifView, r: ExifView)
    requires
        v.canonically(r),
    ensures
        r.blob_bytes() == v.blob_bytes(),
        r.blob_len() == v.blob_len(),
        r.tiff_len() == v.tiff_len(),
{
    lemma_same_layout(v, r);
    lemma_same_ifd0(v, r);
    lemma_same_ifd1(v, r);
    lemma_sub_alike(v.exif_ifd, r.exif_ifd, v.exif_off(), v);
    lemma_sub_alike(v.gps_ifd, r.gps_ifd, v.gps_off(), v);
}

/// The framing of a written blob is recognized.
pub proof fn lemma_framing(v: ExifView)
    ensures
        has_prefix(v.blob_bytes()) == v.had_prefix,
        tiff_of(v.blob_bytes()) == v.tiff_bytes(),
{
    lemma_sections(v);
    let b = v.blob_bytes();
    if v.had_prefix {
        assert(b.subrange(0, 6) =~= exif_prefix());
        assert(b.skip(6) =~= v.tiff_bytes());
    } else {
        assert(b =~= v.tiff_bytes());
        super::reread::lemma_found_byte(b, 0, header_bytes(v.order), 0);
        if has_prefix(b) {
            assert(b.subrange(0, 6)[0] == exif_prefix()[0]);
            assert(b[0] == 0x45);
        }
    }
}

} // verus!
