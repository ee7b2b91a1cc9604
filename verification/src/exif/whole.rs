//! Reading a whole written stream back.
use super::ext::lemma_similar_same;
use super::layout::sort_by_tag;
use super::model::{parse_tiff, ExifView, TextEncoding};
use super::parts::{first_pointers, lemma_sub_reads_back};
use super::sections::{lemma_assembled, lemma_header, lemma_ifd0_reads_back, lemma_thumb_dir};
use super::firstdir::lemma_first_dir;
use super::reread::placed_all;
use super::roundtrip::{lemma_reread_first, lemma_sections};
use super::tags::TAG_INTEROP_IFD;
use vstd::prelude::*;

verus! {

/// A written stream is read back as the canonical form of its tree.
pub proof fn lemma_tiff_reads_back(v: ExifView)
    requires
        v.encodable(),
    ensures
        parse_tiff(v.tiff_bytes(), v.had_prefix) matches Some(r) && v.canonically(r)
            && r.text_encoding == TextEncoding::Ascii,
{
    let tiff = v.tiff_bytes();
    let order = v.order;
    lemma_header(v);
    lemma_ifd0_reads_back(v);
    lemma_sections(v);
    let raw = placed_all(sort_by_tag(v.ifd0 + v.ptrs0()), 8);
    let x = v.exif_ifd is Some;
    let g = v.gps_ifd is Some;
    let xo = v.exif_off() as u32;
    let go = v.gps_off() as u32;
    let next: u32 = if v.ifd1 is Some {
        v.ifd1_off() as u32
    } else {
        0
    };
    assert(v.ptrs0() == first_pointers(x, xo, g, go, order));
    lemma_first_dir(v.ifd0, raw, x, xo, g, go, order);
    if let Some(d) = v.exif_ifd {
        lemma_sub_reads_back(tiff, d, v.exif_off(), order);
        let es = placed_all(sort_by_tag(d), v.exif_off());
        lemma_similar_same(sort_by_tag(d), es);
        lemma_reread_first(d, es, TAG_INTEROP_IFD);
    }
    if let Some(d) = v.gps_ifd {
        lemma_sub_reads_back(tiff, d, v.gps_off(), order);
    }
    if v.ifd1 is Some {
        lemma_thumb_dir(v);
    }
    lemma_assembled(
        tiff,
        v.had_prefix,
        order,
        raw,
        next,
        v.exif_ifd,
        xo,
        v.gps_ifd,
        go,
        v.ifd1,
        v.thumbnail,
    );
}

} // verus!
