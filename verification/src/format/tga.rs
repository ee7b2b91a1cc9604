//! TGA files, which have no signature at the start.
use super::sniff::{bytes_at, has_at};
use vstd::prelude::*;

verus! {

/// `TRUEVISION-XFILE.` and a zero byte.
pub open spec fn tga_footer() -> Seq<u8> {
    seq![
        0x54u8,
        0x52,
        0x55,
        0x45,
        0x56,
        0x49,
        0x53,
        0x49,
        0x4F,
        0x4E,
        0x2D,
        0x58,
        0x46,
        0x49,
        0x4C,
        0x45,
        0x2E,
        0x00,
    ]
}

/// Whether the image is color-mapped, as its type says.
pub open spec fn is_mapped_type(t: u8) -> bool {
    t == 1 || t == 9
}

/// Whether an image type and pixel depth go together: color-mapped and gray
/// images have eight bits, true-color ones 15, 16, 24 or 32.
pub open spec fn depth_fits(image_type: u8, depth: u8) -> bool {
    if image_type == 2 || image_type == 10 {
        depth == 15 || depth == 16 || depth == 24 || depth == 32
    } else {
        (is_mapped_type(image_type) || image_type == 3 || image_type == 11) && depth == 8
    }
}

/// Whether that many alpha bits go with a pixel depth.
pub open spec fn alpha_fits(alpha: int, depth: u8) -> bool {
    if depth == 32 {
        alpha <= 8
    } else if depth == 16 {
        alpha <= 1
    } else {
        alpha == 0
    }
}

/// Whether the first 18 bytes make a sound TGA header: the fields are in range
/// and agree with each other, and the image is not empty.
pub open spec fn is_tga_header(d: Seq<u8>) -> bool {
    &&& d.len() >= 18
    &&& d[0] < 128
    &&& d[1] <= 1
    &&& is_mapped_type(d[2]) ==> d[1] == 1
    &&& d[1] == 1 ==> d[7] == 15 || d[7] == 16 || d[7] == 24 || d[7] == 32
    &&& d[12] != 0 || d[13] != 0
    &&& d[14] != 0 || d[15] != 0
    &&& depth_fits(d[2], d[16])
    &&& d[17] < 64
    &&& alpha_fits(d[17] as int % 16, d[16])
}

/// Whether a file is TGA: it ends with the footer, or its header is sound.
pub open spec fn is_tga(d: Seq<u8>) -> bool {
    (d.len() >= 44 && has_at(d, d.len() - 18, tga_footer())) || is_tga_header(d)
}

/// Whether a file is TGA.
pub fn detect_tga(data: &[u8]) -> (r: bool)
    ensures
        r == is_tga(data@),
{
    let n: usize = data.len();
    if n < 18 {
        return false;
    }
    let footer: [u8; 18] = [
        0x54,
        0x52,
        0x55,
        0x45,
        0x56,
        0x49,
        0x53,
        0x49,
        0x4F,
        0x4E,
        0x2D,
        0x58,
        0x46,
        0x49,
        0x4C,
        0x45,
        0x2E,
        0x00,
    ];
    assert(footer@ =~= tga_footer());
    if n >= 44 && bytes_at(data, n - 18, &footer) {
        return true;
    }
    let id_length: u8 = data[0];
    let color_map_type: u8 = data[1];
    let image_type: u8 = data[2];
    let pixel_depth: u8 = data[16];
    let descriptor: u8 = data[17];
    let alpha_bits: u8 = descriptor % 16;
    if color_map_type > 1 || id_length >= 128 || descriptor >= 64 {
        return false;
    }
    if (data[12] == 0 && data[13] == 0) || (data[14] == 0 && data[15] == 0) {
        return false;
    }
    let mapped = image_type == 1 || image_type == 9;
    if mapped && color_map_type == 0 {
        return false;
    }
    let depth_ok = if image_type == 2 || image_type == 10 {
        pixel_depth == 15 || pixel_depth == 16 || pixel_depth == 24 || pixel_depth == 32
    } else {
        (mapped || image_type == 3 || image_type == 11) && pixel_depth == 8
    };
    if !depth_ok {
        return false;
    }
    let alpha_ok = if pixel_depth == 32 {
        alpha_bits <= 8
    } else if pixel_depth == 16 {
        alpha_bits <= 1
    } else {
        alpha_bits == 0
    };
    if !alpha_ok {
        return false;
    }
    let map_depth: u8 = data[7];
    color_map_type == 0 || map_depth == 15 || map_depth == 16 || map_depth == 24 || map_depth == 32
}

} // verus!
