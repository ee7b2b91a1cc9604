//! TIFF files and what cameras make of them.
use super::sniff::{bytes_at, code_at, has_at};
use crate::exif::codec::{rd16, rd32, u16_at, u32_at, ByteOrder};
use vstd::prelude::*;

verus! {

/// Whether a TIFF header comes first.
pub open spec fn is_tiff(d: Seq<u8>) -> bool {
    has_at(d, 0, seq![0x49u8, 0x49, 42, 0]) || has_at(d, 0, seq![0x4Du8, 0x4D, 0, 42])
}

/// The byte order that the first byte stands for.
pub open spec fn order_of(d: Seq<u8>) -> ByteOrder {
    if d[0] == 0x4D {
        ByteOrder::Big
    } else {
        ByteOrder::Little
    }
}

/// The tag of row `i` of the first directory.
pub open spec fn tag_of_row(d: Seq<u8>, i: int) -> u16 {
    let order = order_of(d);
    u16_at(d, u32_at(d, 4, order) + 2 + 12 * i, order)
}

/// How many rows the first directory declares.
pub open spec fn declared_rows(d: Seq<u8>) -> int {
    u16_at(d, u32_at(d, 4, order_of(d)) as int, order_of(d)) as int
}

/// Whether the tag of row `i` of the first directory is there.
pub open spec fn row_is_there(d: Seq<u8>, i: int) -> bool {
    u32_at(d, 4, order_of(d)) + 2 + 12 * i + 2 <= d.len()
}

/// Whether the first directory lists `tag`. Rows are in tag order, so nothing
/// is looked for behind a larger tag.
pub open spec fn lists_tag(d: Seq<u8>, tag: u16) -> bool {
    &&& d.len() >= 8
    &&& u32_at(d, 4, order_of(d)) + 2 <= d.len()
    &&& exists|i: int|
        0 <= i < declared_rows(d) && row_is_there(d, i) && #[trigger] tag_of_row(d, i) == tag && (
        forall|j: int| 0 <= j < i ==> #[trigger] tag_of_row(d, j) <= tag)
}

/// Whether the signature `APPLEDNG` follows the header.
pub open spec fn has_apple_mark(d: Seq<u8>) -> bool {
    has_at(d, 8, seq![0x41u8, 0x50, 0x50, 0x4C, 0x45, 0x44, 0x4E, 0x47])
}

/// Whether a file is a digital negative: a TIFF file that lists the DNG version
/// or bears the `APPLEDNG` mark.
pub open spec fn is_dng(d: Seq<u8>) -> bool {
    is_tiff(d) && (has_apple_mark(d) || lists_tag(d, 0xC612))
}

/// Whether a file is a camera's raw format other than a digital negative: a
/// TIFF file with the mark `CR` or with sub-directories, or a file of Olympus,
/// Fuji, Panasonic or Canon (CR3) make.
pub open spec fn is_raw(d: Seq<u8>) -> bool {
    if is_tiff(d) && !is_dng(d) {
        has_at(d, 8, seq![0x43u8, 0x52]) || lists_tag(d, 0x014A)
    } else {
        ||| has_at(d, 0, seq![0x49u8, 0x49, 0x52, 0x4F])
        ||| has_at(d, 0, seq![0x46u8, 0x55, 0x4A, 0x49, 0x46, 0x49, 0x4C, 0x4D])
        ||| has_at(d, 0, seq![0x49u8, 0x49, 0x55, 0x00])
        ||| has_at(d, 4, seq![0x66u8, 0x74, 0x79, 0x70, 0x63, 0x72, 0x78, 0x20])
    }
}

/// Whether a TIFF header comes first.
pub fn is_tiff_header(data: &[u8]) -> (r: bool)
    ensures
        r == is_tiff(data@),
{
    bytes_at(data, 0, &[0x49, 0x49, 42, 0]) || bytes_at(data, 0, &[0x4D, 0x4D, 0, 42])
}

/// Whether the signature `APPLEDNG` follows the header.
fn has_appledng(data: &[u8]) -> (r: bool)
    ensures
        r == has_apple_mark(data@),
{
    bytes_at(data, 8, &[0x41, 0x50, 0x50, 0x4C, 0x45, 0x44, 0x4E, 0x47])
}

/// Whether the first directory of a TIFF file lists `target_tag`.
pub fn has_ifd0_tag(data: &[u8], target_tag: u16) -> (r: bool)
    ensures
        r == lists_tag(data@, target_tag),
{
    let n: usize = data.len();
    if n < 8 {
        return false;
    }
    let order = if data[0] == 0x4D {
        ByteOrder::Big
    } else {
        ByteOrder::Little
    };
    let offset: u64 = match rd32(data, 4, order) {
        Some(v) => v as u64,
        None => 0,
    };
    if offset + 2 > n as u64 {
        return false;
    }
    let first: usize = offset as usize;
    let count: u16 = match rd16(data, first, order) {
        Some(v) => v,
        None => 0,
    };
    let mut i: u16 = 0;
    while i < count
        invariant
            n == data@.len(),
            n >= 8,
            order == order_of(data@),
            offset == u32_at(data@, 4, order),
            offset == first,
            offset + 2 <= n,
            count == declared_rows(data@),
            i <= count,
            forall|j: int| 0 <= j < i ==> #[trigger] tag_of_row(data@, j) < target_tag,
        decreases count - i,
    {
        let at: u64 = offset + 2 + 12 * (i as u64);
        if at + 2 > n as u64 {
            assert forall|k: int| i <= k implies !row_is_there(data@, k) by {}
            return false;
        }
        let tag: u16 = match rd16(data, at as usize, order) {
            Some(v) => v,
            None => 0,
        };
        assert(tag == tag_of_row(data@, i as int));
        if tag == target_tag {
            return true;
        }
        if tag > target_tag {
            return false;
        }
        i += 1;
    }
    false
}

/// Whether a file is a digital negative.
pub fn detect_dng(data: &[u8]) -> (r: bool)
    ensures
        r == is_dng(data@),
{
    if !is_tiff_header(data) {
        return false;
    }
    has_appledng(data) || has_ifd0_tag(data, 0xC612)
}

/// Whether a file is a camera's raw format other than a digital negative.
pub fn detect_raw(data: &[u8]) -> (r: bool)
    ensures
        r == is_raw(data@),
{
    if is_tiff_header(data) && !has_ifd0_tag(data, 0xC612) && !has_appledng(data) {
        return bytes_at(data, 8, &[0x43, 0x52]) || has_ifd0_tag(data, 0x014A);
    }
    bytes_at(data, 0, &[0x49, 0x49, 0x52, 0x4F]) || bytes_at(
        data,
        0,
        &[0x46, 0x55, 0x4A, 0x49, 0x46, 0x49, 0x4C, 0x4D],
    ) || bytes_at(data, 0, &[0x49, 0x49, 0x55, 0x00]) || bytes_at(
        data,
        4,
        &[0x66, 0x74, 0x79, 0x70, 0x63, 0x72, 0x78, 0x20],
    )
}

} // verus!
