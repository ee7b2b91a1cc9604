//! Reading the sections of a written stream back.
use super::codec::{bytes16, bytes32, u16_at, u32_at, ByteOrder};
use super::ext::{lemma_similar_same, similar};
use super::layout::{ext_data, header_bytes, sort_by_tag, table_len};
use super::model::{
    header_order, ifd_at, pointer_in, thumbnail_in, tree_of, without_pointer, EntryView, ExifView,
};
use super::reread::{
    lemma_found_part, lemma_found_u16, lemma_found_u32, lemma_ifd_reads_back, lemma_placed_similar,
    placed_all,
};
use super::roundtrip::{
    dir_ok, lemma_items_ok, lemma_ptrs0, lemma_ptrs1, lemma_reread_first, lemma_sections,
    locates_thumbnail, reread_as, tail_bytes,
};
use super::tags::{TAG_EXIF_IFD, TAG_GPS_IFD, TAG_INTEROP_IFD, TAG_THUMB_LENGTH, TAG_THUMB_OFFSET};
use vstd::prelude::*;

use super::parts::left_of;
use super::thumb::{left_of_thumb, lemma_thumb_found};
verus! {

broadcast use {super::codec::lemma_bytes16_len, super::codec::lemma_bytes32_len};

/// The first directory is read back in tag order, pointers included.
pub proof fn lemma_ifd0_reads_back(v: ExifView)
    requires
        dir_ok(v.ifd0),
        v.ifd0.len() + v.pointers0() <= 1000,
        v.offsets_fit(),
    ensures
        u16_at(v.tiff_bytes(), 8, v.order) == v.ifd0.len() + v.pointers0(),
        ifd_at(v.tiff_bytes(), 8, v.order) == Some(
            (
                placed_all(sort_by_tag(v.ifd0 + v.ptrs0()), 8),
                if v.ifd1 is Some {
                    v.ifd1_off() as u32
                } else {
                    0
                },
            ),
        ),
        similar(
            sort_by_tag(v.ifd0 + v.ptrs0()),
            placed_all(sort_by_tag(v.ifd0 + v.ptrs0()), 8),
        ),
{
    lemma_sections(v);
    lemma_ptrs0(v);
    lemma_items_ok(v.ifd0, v.ptrs0());
    let items = sort_by_tag(v.ifd0 + v.ptrs0());
    let next: u32 = if v.ifd1 is Some {
        v.ifd1_off() as u32
    } else {
        0
    };
    lemma_ifd_reads_back(v.tiff_bytes(), items, 8, next, v.order);
    lemma_placed_similar(items, 8);
}

/// The thumbnail directory is read back in tag order, and the thumbnail with it.
pub proof fn lemma_thumb_dir(v: ExifView)
    requires
        v.ifd1 matches Some(d) && dir_ok(d) && d.len() + v.pointers1() <= 1000,
        v.offsets_fit(),
        v.thumbnail_settled(),
    ensures
        ifd_at(v.tiff_bytes(), v.ifd1_off(), v.order) matches Some((es, _)) && thumbnail_in(
            v.tiff_bytes(),
            es,
            v.order,
        ) == v.thumbnail && similar(
            sort_by_tag(v.ifd1->0),
            left_of_thumb(es, v.thumbnail is Some),
        ),
{
    let tiff = v.tiff_bytes();
    let d = v.ifd1->0;
    let order = v.order;
    lemma_sections(v);
    lemma_ptrs1(v);
    lemma_items_ok(d, v.ptrs1());
    let items = sort_by_tag(d + v.ptrs1());
    let off = v.ifd1_off();
    assert(off + table_len(items.len() as int) + ext_data(items).len() == v.thumb_off());
    lemma_ifd_reads_back(tiff, items, off, 0, order);
    lemma_placed_similar(items, off);
    let es = placed_all(items, off);
    if let Some(t) = v.thumbnail {
        assert(tail_bytes(v) == t);
        lemma_thumb_found(tiff, d, es, v.thumb_off() as u32, t, order);
    } else {
        assert(d + v.ptrs1() =~= d);
        lemma_similar_same(sort_by_tag(d), es);
        lemma_reread_first(d, es, TAG_THUMB_OFFSET);
        lemma_reread_first(d, es, TAG_THUMB_LENGTH);
        assert(!locates_thumbnail(d, order, v.tiff_len()));
    }
}

// ── Reading a whole tree back ───────────────────────────────────────────────

/// The header is read back.
pub proof fn lemma_header(v: ExifView)
    ensures
        header_order(v.tiff_bytes()) == Some(v.order),
        u16_at(v.tiff_bytes(), 2, v.order) == 42,
        u32_at(v.tiff_bytes(), 4, v.order) == 8,
{
    lemma_sections(v);
    let tiff = v.tiff_bytes();
    let h = header_bytes(v.order);
    super::reread::lemma_found_byte(tiff, 0, h, 0);
    super::reread::lemma_found_byte(tiff, 0, h, 1);
    lemma_found_part(tiff, 0, h, 2, 4);
    assert(h.subrange(2, 4) =~= bytes16(42, v.order));
    lemma_found_u16(tiff, 2, 42, v.order);
    lemma_found_part(tiff, 0, h, 4, 8);
    assert(h.subrange(4, 8) =~= bytes32(8, v.order));
    lemma_found_u32(tiff, 4, 8, v.order);
}

/// A tree assembled from directories that were read back.
pub proof fn lemma_assembled(
    tiff: Seq<u8>,
    had_prefix: bool,
    order: ByteOrder,
    raw: Seq<EntryView>,
    next: u32,
    exif_ifd: Option<Seq<EntryView>>,
    xo: u32,
    gps_ifd: Option<Seq<EntryView>>,
    go: u32,
    ifd1: Option<Seq<EntryView>>,
    thumbnail: Option<Seq<u8>>,
)
    requires
        pointer_in(raw, TAG_EXIF_IFD, order) == (if exif_ifd is Some {
            Some(xo)
        } else {
            None
        }),
        pointer_in(without_pointer(raw, TAG_EXIF_IFD, order), TAG_GPS_IFD, order) == (
        if gps_ifd is Some {
            Some(go)
        } else {
            None
        }),
        exif_ifd matches Some(d) ==> ifd_at(tiff, xo as int, order) matches Some((es, _))
            && similar(sort_by_tag(d), es) && pointer_in(es, TAG_INTEROP_IFD, order) is None,
        gps_ifd matches Some(d) ==> ifd_at(tiff, go as int, order) matches Some((es, _))
            && similar(sort_by_tag(d), es),
        ifd1 matches Some(d) ==> next != 0 && (ifd_at(tiff, next as int, order) matches Some(
            (es, _),
        ) && thumbnail_in(tiff, es, order) == thumbnail && similar(
            sort_by_tag(d),
            left_of_thumb(es, thumbnail is Some),
        )),
        ifd1 is None ==> next == 0 && thumbnail is None,
    ensures
        ({
            let r = tree_of(tiff, had_prefix, order, raw, next);
            &&& r.order == order
            &&& r.had_prefix == had_prefix
            &&& r.ifd0 == left_of(raw, exif_ifd is Some, gps_ifd is Some, order)
            &&& reread_as(exif_ifd, r.exif_ifd)
            &&& reread_as(gps_ifd, r.gps_ifd)
            &&& reread_as(ifd1, r.ifd1)
            &&& r.thumbnail == thumbnail
        }),
{
}

} // verus!
