//! What the detection of each format goes by, byte for byte.
use super::builtins::looks_like;
use super::camera::lists_tag;
use super::definition::ImageFormat;
use super::sniff::has_at;
use crate::exif::codec::{u16_at, u32_at, ByteOrder};
use crate::exif::reading::{is_readable, law_only_rows_are_read, law_tags_of_a_directory, rows_of};
use vstd::prelude::*;

verus! {

/// Whether the bytes of `d` from `off` on are those of `p`.
pub open spec fn reads(d: Seq<u8>, off: int, p: Seq<u8>) -> bool {
    off + p.len() <= d.len() && forall|i: int| 0 <= i < p.len() ==> d[off + i] == #[trigger] p[i]
}

/// Bytes stand at a place exactly if they do one by one.
proof fn lemma_reads(d: Seq<u8>, off: int, p: Seq<u8>)
    requires
        0 <= off,
    ensures
        has_at(d, off, p) == reads(d, off, p),
{
    if has_at(d, off, p) {
        assert forall|i: int| 0 <= i < p.len() implies d[off + i] == #[trigger] p[i] by {
            assert(d.subrange(off, off + p.len())[i] == p[i]);
        }
    }
    if reads(d, off, p) {
        assert(d.subrange(off, off + p.len()) =~= p);
    }
}

// ── Fixed signatures ────────────────────────────────────────────────────────

/// JPEG opens with a start-of-image marker and another marker; PNG, GIF, WebP and
/// BMP with their names.
pub proof fn law_common_signatures(d: Seq<u8>)
    ensures
        looks_like(ImageFormat::Jpeg, d) <==> d.len() >= 3 && d[0] == 0xFF && d[1] == 0xD8 && d[2]
            == 0xFF,
        looks_like(ImageFormat::Png, d) <==> d.len() >= 8 && d[0] == 0x89 && d[1] == 0x50 && d[2]
            == 0x4E && d[3] == 0x47 && d[4] == 0x0D && d[5] == 0x0A && d[6] == 0x1A && d[7] == 0x0A,
        looks_like(ImageFormat::Gif, d) <==> d.len() >= 6 && d[0] == 0x47 && d[1] == 0x49 && d[2]
            == 0x46 && d[3] == 0x38 && (d[4] == 0x37 || d[4] == 0x39) && d[5] == 0x61,
        looks_like(ImageFormat::WebP, d) <==> d.len() >= 12 && d[0] == 0x52 && d[1] == 0x49 && d[2]
            == 0x46 && d[3] == 0x46 && d[8] == 0x57 && d[9] == 0x45 && d[10] == 0x42 && d[11]
            == 0x50,
        looks_like(ImageFormat::Bmp, d) <==> d.len() >= 2 && d[0] == 0x42 && d[1] == 0x4D,
{
    lemma_reads(d, 0, seq![0xFFu8, 0xD8, 0xFF]);
    lemma_reads(d, 0, seq![0x89u8, 0x50, 0x4E, 0x47, 0x0D, 0x0A, 0x1A, 0x0A]);
    lemma_reads(d, 0, seq![0x47u8, 0x49, 0x46, 0x38, 0x37, 0x61]);
    lemma_reads(d, 0, seq![0x47u8, 0x49, 0x46, 0x38, 0x39, 0x61]);
    lemma_reads(d, 0, seq![0x52u8, 0x49, 0x46, 0x46]);
    lemma_reads(d, 8, seq![0x57u8, 0x45, 0x42, 0x50]);
    lemma_reads(d, 0, seq![0x42u8, 0x4D]);
    lemma_bytes_of(d);
}

/// The bytes of the signatures above.
proof fn lemma_bytes_of(d: Seq<u8>)
    ensures
        reads(d, 0, seq![0xFFu8, 0xD8, 0xFF]) <==> d.len() >= 3 && d[0] == 0xFF && d[1] == 0xD8
            && d[2] == 0xFF,
        reads(d, 0, seq![0x89u8, 0x50, 0x4E, 0x47, 0x0D, 0x0A, 0x1A, 0x0A]) <==> d.len() >= 8
            && d[0] == 0x89 && d[1] == 0x50 && d[2] == 0x4E && d[3] == 0x47 && d[4] == 0x0D && d[5]
            == 0x0A && d[6] == 0x1A && d[7] == 0x0A,
        reads(d, 0, seq![0x47u8, 0x49, 0x46, 0x38, 0x37, 0x61]) <==> d.len() >= 6 && d[0] == 0x47
            && d[1] == 0x49 && d[2] == 0x46 && d[3] == 0x38 && d[4] == 0x37 && d[5] == 0x61,
        reads(d, 0, seq![0x47u8, 0x49, 0x46, 0x38, 0x39, 0x61]) <==> d.len() >= 6 && d[0] == 0x47
            && d[1] == 0x49 && d[2] == 0x46 && d[3] == 0x38 && d[4] == 0x39 && d[5] == 0x61,
        reads(d, 0, seq![0x52u8, 0x49, 0x46, 0x46]) <==> d.len() >= 4 && d[0] == 0x52 && d[1]
            == 0x49 && d[2] == 0x46 && d[3] == 0x46,
        reads(d, 8, seq![0x57u8, 0x45, 0x42, 0x50]) <==> d.len() >= 12 && d[8] == 0x57 && d[9]
            == 0x45 && d[10] == 0x42 && d[11] == 0x50,
        reads(d, 0, seq![0x42u8, 0x4D]) <==> d.len() >= 2 && d[0] == 0x42 && d[1] == 0x4D,
{
    lemma_listed(d, 0, seq![0xFFu8, 0xD8, 0xFF]);
    lemma_listed(d, 0, seq![0x89u8, 0x50, 0x4E, 0x47, 0x0D, 0x0A, 0x1A, 0x0A]);
    lemma_listed(d, 0, seq![0x47u8, 0x49, 0x46, 0x38, 0x37, 0x61]);
    lemma_listed(d, 0, seq![0x47u8, 0x49, 0x46, 0x38, 0x39, 0x61]);
    lemma_listed(d, 0, seq![0x52u8, 0x49, 0x46, 0x46]);
    lemma_listed(d, 8, seq![0x57u8, 0x45, 0x42, 0x50]);
    lemma_listed(d, 0, seq![0x42u8, 0x4D]);
}

/// Up to eight bytes, one by one.
proof fn lemma_listed(d: Seq<u8>, off: int, p: Seq<u8>)
    requires
        p.len() <= 8,
    ensures
        reads(d, off, p) <==> off + p.len() <= d.len() && (p.len() > 0 ==> d[off] == p[0]) && (
        p.len() > 1 ==> d[off + 1] == p[1]) && (p.len() > 2 ==> d[off + 2] == p[2]) && (p.len() > 3
            ==> d[off + 3] == p[3]) && (p.len() > 4 ==> d[off + 4] == p[4]) && (p.len() > 5 ==> d[off
            + 5] == p[5]) && (p.len() > 6 ==> d[off + 6] == p[6]) && (p.len() > 7 ==> d[off + 7]
            == p[7]),
{
    if reads(d, off, p) {
        assert(p.len() > 0 ==> d[off + 0] == p[0]);
    }
}

/// The other formats with a signature at the start: JPEG XL as a codestream or a
/// container, farbfeld, PNM (`P1` to `P7`, `PF`, `Pf`), icons and cursors, QOI,
/// PDF, OpenEXR, Radiance HDR, JPEG 2000 as a container or a codestream.
pub proof fn law_other_signatures(d: Seq<u8>)
    ensures
        looks_like(ImageFormat::Jxl, d) <==> (d.len() >= 2 && d[0] == 0xFF && d[1] == 0x0A) || (
        d.len() >= 12 && d[0] == 0 && d[1] == 0 && d[2] == 0 && d[3] == 12 && d[4] == 0x4A && d[5]
            == 0x58 && d[6] == 0x4C && d[7] == 0x20 && d[8] == 0x0D && d[9] == 0x0A && d[10] == 0x87
            && d[11] == 0x0A),
        looks_like(ImageFormat::Farbfeld, d) <==> d.len() >= 8 && d[0] == 0x66 && d[1] == 0x61
            && d[2] == 0x72 && d[3] == 0x62 && d[4] == 0x66 && d[5] == 0x65 && d[6] == 0x6C && d[7]
            == 0x64,
        looks_like(ImageFormat::Pnm, d) <==> d.len() >= 2 && d[0] == 0x50 && (d[1] == 0x31 || d[1]
            == 0x32 || d[1] == 0x33 || d[1] == 0x34 || d[1] == 0x35 || d[1] == 0x36 || d[1] == 0x37
            || d[1] == 0x46 || d[1] == 0x66),
        looks_like(ImageFormat::Ico, d) <==> d.len() >= 4 && d[0] == 0 && d[1] == 0 && (d[2] == 1
            || d[2] == 2) && d[3] == 0,
        looks_like(ImageFormat::Qoi, d) <==> d.len() >= 4 && d[0] == 0x71 && d[1] == 0x6F && d[2]
            == 0x69 && d[3] == 0x66,
        looks_like(ImageFormat::Pdf, d) <==> d.len() >= 5 && d[0] == 0x25 && d[1] == 0x50 && d[2]
            == 0x44 && d[3] == 0x46 && d[4] == 0x2D,
        looks_like(ImageFormat::Exr, d) <==> d.len() >= 4 && d[0] == 0x76 && d[1] == 0x2F && d[2]
            == 0x31 && d[3] == 1,
        looks_like(ImageFormat::Hdr, d) <==> d.len() >= 10 && d[0] == 0x23 && d[1] == 0x3F && d[2]
            == 0x52 && ((d[3] == 0x41 && d[4] == 0x44 && d[5] == 0x49 && d[6] == 0x41 && d[7] == 0x4E
            && d[8] == 0x43 && d[9] == 0x45) || (d[3] == 0x47 && d[4] == 0x42 && d[5] == 0x45)),
        looks_like(ImageFormat::Jp2, d) <==> (d.len() >= 8 && d[0] == 0 && d[1] == 0 && d[2] == 0
            && d[3] == 12 && d[4] == 0x6A && d[5] == 0x50 && d[6] == 0x20 && d[7] == 0x20) || (
        d.len() >= 4 && d[0] == 0xFF && d[1] == 0x4F && d[2] == 0xFF && d[3] == 0x51),
{
    lemma_jxl_and_farbfeld(d);
    lemma_short_names(d);
    lemma_hdr_and_jp2(d);
}

/// JPEG XL and farbfeld.
proof fn lemma_jxl_and_farbfeld(d: Seq<u8>)
    ensures
        looks_like(ImageFormat::Jxl, d) <==> (d.len() >= 2 && d[0] == 0xFF && d[1] == 0x0A) || (
        d.len() >= 12 && d[0] == 0 && d[1] == 0 && d[2] == 0 && d[3] == 12 && d[4] == 0x4A && d[5]
            == 0x58 && d[6] == 0x4C && d[7] == 0x20 && d[8] == 0x0D && d[9] == 0x0A && d[10] == 0x87
            && d[11] == 0x0A),
        looks_like(ImageFormat::Farbfeld, d) <==> d.len() >= 8 && d[0] == 0x66 && d[1] == 0x61
            && d[2] == 0x72 && d[3] == 0x62 && d[4] == 0x66 && d[5] == 0x65 && d[6] == 0x6C && d[7]
            == 0x64,
{
    let c = seq![0xFFu8, 0x0A];
    let j = seq![0u8, 0, 0, 0x0C, 0x4A, 0x58, 0x4C, 0x20, 0x0D, 0x0A, 0x87, 0x0A];
    let f = seq![0x66u8, 0x61, 0x72, 0x62, 0x66, 0x65, 0x6C, 0x64];
    lemma_reads(d, 0, c);
    lemma_reads(d, 0, j);
    lemma_reads(d, 0, f);
    lemma_listed(d, 0, c);
    lemma_listed(d, 0, f);
    if reads(d, 0, j) {
        assert(d[0] == j[0] && d[1] == j[1] && d[2] == j[2] && d[3] == j[3] && d[4] == j[4] && d[5] == j[5] && d[6] == j[6] && d[7] == j[7] && d[8]
            == j[8] && d[9] == j[9] && d[10] == j[10] && d[11] == j[11]);
    }
}

/// Icons and cursors, QOI, PDF and OpenEXR.
proof fn lemma_short_names(d: Seq<u8>)
    ensures
        looks_like(ImageFormat::Ico, d) <==> d.len() >= 4 && d[0] == 0 && d[1] == 0 && (d[2] == 1
            || d[2] == 2) && d[3] == 0,
        looks_like(ImageFormat::Qoi, d) <==> d.len() >= 4 && d[0] == 0x71 && d[1] == 0x6F && d[2]
            == 0x69 && d[3] == 0x66,
        looks_like(ImageFormat::Pdf, d) <==> d.len() >= 5 && d[0] == 0x25 && d[1] == 0x50 && d[2]
            == 0x44 && d[3] == 0x46 && d[4] == 0x2D,
        looks_like(ImageFormat::Exr, d) <==> d.len() >= 4 && d[0] == 0x76 && d[1] == 0x2F && d[2]
            == 0x31 && d[3] == 1,
{
    lemma_reads(d, 0, seq![0u8, 0, 1, 0]);
    lemma_reads(d, 0, seq![0u8, 0, 2, 0]);
    lemma_reads(d, 0, seq![0x71u8, 0x6F, 0x69, 0x66]);
    lemma_reads(d, 0, seq![0x25u8, 0x50, 0x44, 0x46, 0x2D]);
    lemma_reads(d, 0, seq![0x76u8, 0x2F, 0x31, 0x01]);
    lemma_listed(d, 0, seq![0u8, 0, 1, 0]);
    lemma_listed(d, 0, seq![0u8, 0, 2, 0]);
    lemma_listed(d, 0, seq![0x71u8, 0x6F, 0x69, 0x66]);
    lemma_listed(d, 0, seq![0x25u8, 0x50, 0x44, 0x46, 0x2D]);
    lemma_listed(d, 0, seq![0x76u8, 0x2F, 0x31, 0x01]);
}

/// Radiance HDR and JPEG 2000.
proof fn lemma_hdr_and_jp2(d: Seq<u8>)
    ensures
        looks_like(ImageFormat::Hdr, d) <==> d.len() >= 10 && d[0] == 0x23 && d[1] == 0x3F && d[2]
            == 0x52 && ((d[3] == 0x41 && d[4] == 0x44 && d[5] == 0x49 && d[6] == 0x41 && d[7] == 0x4E
            && d[8] == 0x43 && d[9] == 0x45) || (d[3] == 0x47 && d[4] == 0x42 && d[5] == 0x45)),
        looks_like(ImageFormat::Jp2, d) <==> (d.len() >= 8 && d[0] == 0 && d[1] == 0 && d[2] == 0
            && d[3] == 12 && d[4] == 0x6A && d[5] == 0x50 && d[6] == 0x20 && d[7] == 0x20) || (
        d.len() >= 4 && d[0] == 0xFF && d[1] == 0x4F && d[2] == 0xFF && d[3] == 0x51),
{
    let r = seq![0x23u8, 0x3F, 0x52, 0x41, 0x44, 0x49, 0x41, 0x4E, 0x43, 0x45];
    let g = seq![0x23u8, 0x3F, 0x52, 0x47, 0x42, 0x45];
    let b = seq![0u8, 0, 0, 0x0C, 0x6A, 0x50, 0x20, 0x20];
    let s = seq![0xFFu8, 0x4F, 0xFF, 0x51];
    lemma_reads(d, 0, r);
    lemma_reads(d, 0, g);
    lemma_reads(d, 0, b);
    lemma_reads(d, 0, s);
    lemma_listed(d, 0, g);
    lemma_listed(d, 0, b);
    lemma_listed(d, 0, s);
    if reads(d, 0, r) {
        assert(d[0] == r[0] && d[1] == r[1] && d[2] == r[2] && d[3] == r[3] && d[4] == r[4] && d[5] == r[5] && d[6] == r[6] && d[7] == r[7] && d[8]
            == r[8] && d[9] == r[9]);
    }
}

/// Nothing but a built-in format is told from bytes.
pub proof fn law_unknown_is_not_detected(d: Seq<u8>)
    ensures
        !looks_like(ImageFormat::Unknown, d),
{
}

// ── Camera files ────────────────────────────────────────────────────────────

/// The byte order of a TIFF file: big-endian if its first byte is `M`, else
/// little-endian.
pub open spec fn has_order(d: Seq<u8>, order: ByteOrder) -> bool {
    order == ByteOrder::Big <==> d[0] == 0x4D
}

/// Whether the first directory of a TIFF file, `n` rows of twelve bytes behind a
/// two-byte count at `off`, is wholly inside the data and in tag order.
pub open spec fn has_sorted_directory(d: Seq<u8>, order: ByteOrder, off: int, n: int) -> bool {
    &&& d.len() >= 8
    &&& has_order(d, order)
    &&& off == u32_at(d, 4, order)
    &&& off + 2 + 12 * n <= d.len()
    &&& n == u16_at(d, off, order)
    &&& forall|i: int, j: int|
        0 <= i <= j < n ==> #[trigger] u16_at(d, off + 2 + 12 * i, order) <= #[trigger] u16_at(
            d,
            off + 2 + 12 * j,
            order,
        )
}

/// A directory in tag order that is wholly there lists a tag exactly if one of its
/// rows, twelve bytes apart, starts with it.
pub proof fn law_directory_lists_its_rows(
    d: Seq<u8>,
    order: ByteOrder,
    off: int,
    n: int,
    tag: u16,
)
    requires
        has_sorted_directory(d, order, off, n),
    ensures
        lists_tag(d, tag) <==> exists|i: int|
            0 <= i < n && #[trigger] u16_at(d, off + 2 + 12 * i, order) == tag,
{
    if exists|i: int| 0 <= i < n && #[trigger] u16_at(d, off + 2 + 12 * i, order) == tag {
        let i = choose|i: int| 0 <= i < n && #[trigger] u16_at(d, off + 2 + 12 * i, order) == tag;
        assert(super::camera::tag_of_row(d, i) == tag);
        assert forall|j: int| 0 <= j < i implies #[trigger] super::camera::tag_of_row(d, j)
            <= tag by {
            assert(u16_at(d, off + 2 + 12 * j, order) <= u16_at(d, off + 2 + 12 * i, order));
        }
    }
    if lists_tag(d, tag) {
        let i = choose|i: int|
            0 <= i < super::camera::declared_rows(d) && super::camera::row_is_there(d, i)
                && #[trigger] super::camera::tag_of_row(d, i) == tag && (forall|j: int|
                0 <= j < i ==> #[trigger] super::camera::tag_of_row(d, j) <= tag);
        assert(u16_at(d, off + 2 + 12 * i, order) == tag);
    }
}

/// Whatever the order of its rows, a tag that is found is that of a row: one that
/// starts inside the data, twelve bytes from the next.
pub proof fn law_listed_tag_is_there(d: Seq<u8>, order: ByteOrder, tag: u16)
    requires
        has_order(d, order),
        lists_tag(d, tag),
    ensures
        d.len() >= 8,
        exists|i: int|
            0 <= i < u16_at(d, u32_at(d, 4, order) as int, order) && u32_at(d, 4, order) + 2 + 12 * i
                + 2 <= d.len() && #[trigger] u16_at(d, u32_at(d, 4, order) + 2 + 12 * i, order)
                == tag,
{
    let i = choose|i: int|
        0 <= i < super::camera::declared_rows(d) && super::camera::row_is_there(d, i)
            && #[trigger] super::camera::tag_of_row(d, i) == tag && (forall|j: int|
            0 <= j < i ==> #[trigger] super::camera::tag_of_row(d, j) <= tag);
    assert(u16_at(d, u32_at(d, 4, order) + 2 + 12 * i, order) == tag);
}

/// Detection and parsing agree: an entry that is read from the first directory of
/// a TIFF file, in tag order and wholly inside the data, is listed there.
pub proof fn law_parsed_entries_are_listed(
    d: Seq<u8>,
    order: ByteOrder,
    off: int,
    n: int,
    k: int,
)
    requires
        has_sorted_directory(d, order, off, n),
        0 <= k < rows_of(d, off, order).len(),
    ensures
        lists_tag(d, rows_of(d, off, order)[k].tag),
{
    let tag = rows_of(d, off, order)[k].tag;
    law_only_rows_are_read(d, off, order, k);
    law_directory_lists_its_rows(d, order, off, n, tag);
}

/// Detection finds what parsing finds: where the rows of the first directory are in
/// tag order, wholly inside the data and can all be read, it lists a tag exactly if
/// one of the entries that are read has it.
pub proof fn law_listed_tags_are_parsed(
    d: Seq<u8>,
    order: ByteOrder,
    off: int,
    n: int,
    tag: u16,
)
    requires
        has_sorted_directory(d, order, off, n),
        n <= 1000,
        forall|k: int| 0 <= k < n ==> #[trigger] is_readable(d, off + 2 + 12 * k, order),
    ensures
        lists_tag(d, tag) <==> exists|i: int|
            0 <= i < rows_of(d, off, order).len() && (#[trigger] rows_of(d, off, order)[i]).tag
                == tag,
{
    law_directory_lists_its_rows(d, order, off, n, tag);
    law_tags_of_a_directory(d, off, order, tag);
}

/// TIFF files open with `II*` and a zero byte, or `MM`, a zero byte and `*`.
pub proof fn law_tiff_signature(d: Seq<u8>)
    ensures
        looks_like(ImageFormat::Tiff, d) <==> d.len() >= 4 && ((d[0] == 0x49 && d[1] == 0x49 && d[2]
            == 0x2A && d[3] == 0) || (d[0] == 0x4D && d[1] == 0x4D && d[2] == 0 && d[3] == 0x2A)),
{
    let i = seq![0x49u8, 0x49, 42, 0];
    let m = seq![0x4Du8, 0x4D, 0, 42];
    lemma_reads(d, 0, i);
    lemma_reads(d, 0, m);
    lemma_listed(d, 0, i);
    lemma_listed(d, 0, m);
}

/// Whether `APPLEDNG` follows the header.
pub open spec fn marked_by_apple(d: Seq<u8>) -> bool {
    d.len() >= 16 && d[8] == 0x41 && d[9] == 0x50 && d[10] == 0x50 && d[11] == 0x4C && d[12] == 0x45
        && d[13] == 0x44 && d[14] == 0x4E && d[15] == 0x47
}

/// The mark, byte by byte.
proof fn lemma_apple(d: Seq<u8>)
    ensures
        super::camera::has_apple_mark(d) == marked_by_apple(d),
{
    let a = seq![0x41u8, 0x50, 0x50, 0x4C, 0x45, 0x44, 0x4E, 0x47];
    lemma_reads(d, 8, a);
    lemma_listed(d, 8, a);
}

/// A TIFF file is a digital negative exactly if it lists the DNG version (0xC612)
/// or bears Apple's mark; no other file is one.
pub proof fn law_dng_signature(d: Seq<u8>)
    ensures
        looks_like(ImageFormat::Dng, d) <==> looks_like(ImageFormat::Tiff, d) && (marked_by_apple(d)
            || lists_tag(d, 0xC612)),
{
    lemma_apple(d);
}

/// A digital negative in terms of its rows: a TIFF file, its directory in order
/// and wholly there, is one exactly if it has the mark or a row 0xC612.
pub proof fn law_dng_rows(d: Seq<u8>, order: ByteOrder, off: int, n: int)
    requires
        looks_like(ImageFormat::Tiff, d),
        has_sorted_directory(d, order, off, n),
    ensures
        looks_like(ImageFormat::Dng, d) <==> marked_by_apple(d) || exists|i: int|
            0 <= i < n && #[trigger] u16_at(d, off + 2 + 12 * i, order) == 0xC612,
{
    law_dng_signature(d);
    law_directory_lists_its_rows(d, order, off, n, 0xC612);
}

/// A TIFF file that is no digital negative is a camera's raw format exactly if
/// `CR` follows its header or it lists sub-directories (0x014A). Other raw files
/// open with `IIRO`, `FUJIFILM` or `IIU` and a zero byte, or with a `crx ` file
/// type.
pub proof fn law_raw_signature(d: Seq<u8>)
    ensures
        looks_like(ImageFormat::Tiff, d) && !looks_like(ImageFormat::Dng, d) ==> (looks_like(
            ImageFormat::Raw,
            d,
        ) <==> (d.len() >= 10 && d[8] == 0x43 && d[9] == 0x52) || lists_tag(d, 0x014A)),
        !looks_like(ImageFormat::Tiff, d) ==> (looks_like(ImageFormat::Raw, d) <==> ({
            ||| d.len() >= 4 && d[0] == 0x49 && d[1] == 0x49 && d[2] == 0x52 && d[3] == 0x4F
            ||| d.len() >= 4 && d[0] == 0x49 && d[1] == 0x49 && d[2] == 0x55 && d[3] == 0
            ||| d.len() >= 8 && d[0] == 0x46 && d[1] == 0x55 && d[2] == 0x4A && d[3] == 0x49 && d[4]
                == 0x46 && d[5] == 0x49 && d[6] == 0x4C && d[7] == 0x4D
            ||| d.len() >= 12 && d[4] == 0x66 && d[5] == 0x74 && d[6] == 0x79 && d[7] == 0x70 && d[8]
                == 0x63 && d[9] == 0x72 && d[10] == 0x78 && d[11] == 0x20
        })),
        looks_like(ImageFormat::Dng, d) ==> (looks_like(ImageFormat::Raw, d) ==> d[4] == 0x66
            && d[8] == 0x63),
{
    let cr = seq![0x43u8, 0x52];
    let ro = seq![0x49u8, 0x49, 0x52, 0x4F];
    let fu = seq![0x46u8, 0x55, 0x4A, 0x49, 0x46, 0x49, 0x4C, 0x4D];
    let pa = seq![0x49u8, 0x49, 0x55, 0x00];
    let ca = seq![0x66u8, 0x74, 0x79, 0x70, 0x63, 0x72, 0x78, 0x20];
    lemma_reads(d, 8, cr);
    lemma_reads(d, 0, ro);
    lemma_reads(d, 0, fu);
    lemma_reads(d, 0, pa);
    lemma_reads(d, 4, ca);
    lemma_listed(d, 8, cr);
    lemma_listed(d, 0, ro);
    lemma_listed(d, 0, fu);
    lemma_listed(d, 0, pa);
    lemma_listed(d, 4, ca);
    law_tiff_signature(d);
    law_dng_signature(d);
}

} // verus!
