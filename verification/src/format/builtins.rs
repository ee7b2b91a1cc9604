//! The built-in formats.
use super::camera::{
    detect_dng, detect_raw, is_dng, is_raw, is_tiff, is_tiff_header,
};
use super::definition::{DefinitionView, Detect, ImageFormat, ImageFormatDefinition};
use super::sniff::{
    avif_brands, bytes_at, detect_avif, detect_heic, has_at, heic_brands, is_of_brand,
};
use super::svg::{detect_svg, is_svg};
use super::tga::{detect_tga, is_tga};
use super::text::spellings;
use vstd::prelude::*;

verus! {

// ── Detection ───────────────────────────────────────────────────────────────

/// Whether `d` appears to be of a built-in format.
pub open spec fn looks_like(f: ImageFormat, d: Seq<u8>) -> bool {
    match f {
        ImageFormat::Jpeg => has_at(d, 0, seq![0xFFu8, 0xD8, 0xFF]),
        ImageFormat::Png => has_at(d, 0, seq![0x89u8, 0x50, 0x4E, 0x47, 0x0D, 0x0A, 0x1A, 0x0A]),
        ImageFormat::Gif => has_at(d, 0, seq![0x47u8, 0x49, 0x46, 0x38, 0x37, 0x61]) || has_at(
            d,
            0,
            seq![0x47u8, 0x49, 0x46, 0x38, 0x39, 0x61],
        ),
        ImageFormat::WebP => has_at(d, 0, seq![0x52u8, 0x49, 0x46, 0x46]) && has_at(
            d,
            8,
            seq![0x57u8, 0x45, 0x42, 0x50],
        ),
        ImageFormat::Avif => is_of_brand(d, avif_brands()),
        ImageFormat::Jxl => has_at(d, 0, seq![0xFFu8, 0x0A]) || has_at(
            d,
            0,
            seq![0u8, 0, 0, 0x0C, 0x4A, 0x58, 0x4C, 0x20, 0x0D, 0x0A, 0x87, 0x0A],
        ),
        ImageFormat::Heic => is_of_brand(d, heic_brands()),
        ImageFormat::Bmp => has_at(d, 0, seq![0x42u8, 0x4D]),
        ImageFormat::Farbfeld => has_at(
            d,
            0,
            seq![0x66u8, 0x61, 0x72, 0x62, 0x66, 0x65, 0x6C, 0x64],
        ),
        ImageFormat::Pnm => d.len() >= 2 && d[0] == 0x50 && (0x31 <= d[1] <= 0x37 || d[1] == 0x46
            || d[1] == 0x66),
        ImageFormat::Dng => is_dng(d),
        ImageFormat::Raw => is_raw(d),
        ImageFormat::Tiff => is_tiff(d),
        ImageFormat::Ico => has_at(d, 0, seq![0u8, 0, 1, 0]) || has_at(d, 0, seq![0u8, 0, 2, 0]),
        ImageFormat::Qoi => has_at(d, 0, seq![0x71u8, 0x6F, 0x69, 0x66]),
        ImageFormat::Pdf => has_at(d, 0, seq![0x25u8, 0x50, 0x44, 0x46, 0x2D]),
        ImageFormat::Exr => has_at(d, 0, seq![0x76u8, 0x2F, 0x31, 0x01]),
        ImageFormat::Hdr => d.len() >= 10 && (has_at(
            d,
            0,
            seq![0x23u8, 0x3F, 0x52, 0x41, 0x44, 0x49, 0x41, 0x4E, 0x43, 0x45],
        ) || has_at(d, 0, seq![0x23u8, 0x3F, 0x52, 0x47, 0x42, 0x45])),
        ImageFormat::Jp2 => has_at(d, 0, seq![0u8, 0, 0, 0x0C, 0x6A, 0x50, 0x20, 0x20]) || has_at(
            d,
            0,
            seq![0xFFu8, 0x4F, 0xFF, 0x51],
        ),
        ImageFormat::Tga => is_tga(d),
        ImageFormat::Svg => is_svg(d),
        _ => false,
    }
}

/// The test for a built-in format.
pub struct BuiltinTest {
    pub format: ImageFormat,
}

impl Detect for BuiltinTest {
    open spec fn detects(&self, data: Seq<u8>) -> bool {
        looks_like(self.format, data)
    }

    fn detect(&self, data: &[u8]) -> (r: bool) {
        match self.format {
            ImageFormat::Jpeg => bytes_at(data, 0, &[0xFF, 0xD8, 0xFF]),
            ImageFormat::Png => bytes_at(
                data,
                0,
                &[0x89, 0x50, 0x4E, 0x47, 0x0D, 0x0A, 0x1A, 0x0A],
            ),
            ImageFormat::Gif => bytes_at(data, 0, &[0x47, 0x49, 0x46, 0x38, 0x37, 0x61])
                || bytes_at(data, 0, &[0x47, 0x49, 0x46, 0x38, 0x39, 0x61]),
            ImageFormat::WebP => bytes_at(data, 0, &[0x52, 0x49, 0x46, 0x46]) && bytes_at(
                data,
                8,
                &[0x57, 0x45, 0x42, 0x50],
            ),
            ImageFormat::Avif => detect_avif(data),
            ImageFormat::Jxl => bytes_at(data, 0, &[0xFF, 0x0A]) || bytes_at(
                data,
                0,
                &[0, 0, 0, 0x0C, 0x4A, 0x58, 0x4C, 0x20, 0x0D, 0x0A, 0x87, 0x0A],
            ),
            ImageFormat::Heic => detect_heic(data),
            ImageFormat::Bmp => bytes_at(data, 0, &[0x42, 0x4D]),
            ImageFormat::Farbfeld => bytes_at(
                data,
                0,
                &[0x66, 0x61, 0x72, 0x62, 0x66, 0x65, 0x6C, 0x64],
            ),
            ImageFormat::Pnm => data.len() >= 2 && data[0] == 0x50 && ((0x31 <= data[1] && data[1]
                <= 0x37) || data[1] == 0x46 || data[1] == 0x66),
            ImageFormat::Dng => detect_dng(data),
            ImageFormat::Raw => detect_raw(data),
            ImageFormat::Tiff => is_tiff_header(data),
            ImageFormat::Ico => bytes_at(data, 0, &[0, 0, 1, 0]) || bytes_at(
                data,
                0,
                &[0, 0, 2, 0],
            ),
            ImageFormat::Qoi => bytes_at(data, 0, &[0x71, 0x6F, 0x69, 0x66]),
            ImageFormat::Pdf => bytes_at(data, 0, &[0x25, 0x50, 0x44, 0x46, 0x2D]),
            ImageFormat::Exr => bytes_at(data, 0, &[0x76, 0x2F, 0x31, 0x01]),
            ImageFormat::Hdr => data.len() >= 10 && (bytes_at(
                data,
                0,
                &[0x23, 0x3F, 0x52, 0x41, 0x44, 0x49, 0x41, 0x4E, 0x43, 0x45],
            ) || bytes_at(data, 0, &[0x23, 0x3F, 0x52, 0x47, 0x42, 0x45])),
            ImageFormat::Jp2 => bytes_at(data, 0, &[0, 0, 0, 0x0C, 0x6A, 0x50, 0x20, 0x20])
                || bytes_at(data, 0, &[0xFF, 0x4F, 0xFF, 0x51]),
            ImageFormat::Tga => detect_tga(data),
            ImageFormat::Svg => detect_svg(data),
            _ => false,
        }
    }
}

// ── Definitions ─────────────────────────────────────────────────────────────

/// JPEG.
pub open spec fn jpeg_view() -> DefinitionView {
    DefinitionView {
        name: "jpeg"@,
        image_format: Some(ImageFormat::Jpeg),
        display_name: "JPEG"@,
        preferred_extension: "jpg"@,
        extensions: seq!["jpg"@, "jpeg"@, "jpe"@, "jfif"@],
        preferred_mime_type: "image/jpeg"@,
        mime_types: seq!["image/jpeg"@],
        supports_alpha: false,
        supports_animation: false,
        supports_lossless: false,
        supports_lossy: true,
        magic_bytes_needed: 2048,
    }
}

/// The definition of JPEG.
pub fn jpeg() -> (r: &'static ImageFormatDefinition)
    ensures
        r@ == jpeg_view(),
        is_builtin(r, ImageFormat::Jpeg),
{
    let r: &'static ImageFormatDefinition = &ImageFormatDefinition {
        name: "jpeg",
        image_format: Some(ImageFormat::Jpeg),
        display_name: "JPEG",
        preferred_extension: "jpg",
        extensions: &["jpg", "jpeg", "jpe", "jfif"],
        preferred_mime_type: "image/jpeg",
        mime_types: &["image/jpeg"],
        supports_alpha: false,
        supports_animation: false,
        supports_lossless: false,
        supports_lossy: true,
        magic_bytes_needed: 2048,
        detect: &BuiltinTest { format: ImageFormat::Jpeg },
    };
    assert(spellings(r.extensions@) =~= jpeg_view().extensions);
    assert(spellings(r.mime_types@) =~= jpeg_view().mime_types);
    r
}

/// PNG.
pub open spec fn png_view() -> DefinitionView {
    DefinitionView {
        name: "png"@,
        image_format: Some(ImageFormat::Png),
        display_name: "PNG"@,
        preferred_extension: "png"@,
        extensions: seq!["png"@],
        preferred_mime_type: "image/png"@,
        mime_types: seq!["image/png"@],
        supports_alpha: true,
        supports_animation: true,
        supports_lossless: true,
        supports_lossy: false,
        magic_bytes_needed: 33,
    }
}

/// The definition of PNG.
pub fn png() -> (r: &'static ImageFormatDefinition)
    ensures
        r@ == png_view(),
        is_builtin(r, ImageFormat::Png),
{
    let r: &'static ImageFormatDefinition = &ImageFormatDefinition {
        name: "png",
        image_format: Some(ImageFormat::Png),
        display_name: "PNG",
        preferred_extension: "png",
        extensions: &["png"],
        preferred_mime_type: "image/png",
        mime_types: &["image/png"],
        supports_alpha: true,
        supports_animation: true,
        supports_lossless: true,
        supports_lossy: false,
        magic_bytes_needed: 33,
        detect: &BuiltinTest { format: ImageFormat::Png },
    };
    assert(spellings(r.extensions@) =~= png_view().extensions);
    assert(spellings(r.mime_types@) =~= png_view().mime_types);
    r
}

/// GIF.
pub open spec fn gif_view() -> DefinitionView {
    DefinitionView {
        name: "gif"@,
        image_format: Some(ImageFormat::Gif),
        display_name: "GIF"@,
        preferred_extension: "gif"@,
        extensions: seq!["gif"@],
        preferred_mime_type: "image/gif"@,
        mime_types: seq!["image/gif"@],
        supports_alpha: true,
        supports_animation: true,
        supports_lossless: true,
        supports_lossy: false,
        magic_bytes_needed: 13,
    }
}

/// The definition of GIF.
pub fn gif() -> (r: &'static ImageFormatDefinition)
    ensures
        r@ == gif_view(),
        is_builtin(r, ImageFormat::Gif),
{
    let r: &'static ImageFormatDefinition = &ImageFormatDefinition {
        name: "gif",
        image_format: Some(ImageFormat::Gif),
        display_name: "GIF",
        preferred_extension: "gif",
        extensions: &["gif"],
        preferred_mime_type: "image/gif",
        mime_types: &["image/gif"],
        supports_alpha: true,
        supports_animation: true,
        supports_lossless: true,
        supports_lossy: false,
        magic_bytes_needed: 13,
        detect: &BuiltinTest { format: ImageFormat::Gif },
    };
    assert(spellings(r.extensions@) =~= gif_view().extensions);
    assert(spellings(r.mime_types@) =~= gif_view().mime_types);
    r
}

/// WebP.
pub open spec fn webp_view() -> DefinitionView {
    DefinitionView {
        name: "webp"@,
        image_format: Some(ImageFormat::WebP),
        display_name: "WebP"@,
        preferred_extension: "webp"@,
        extensions: seq!["webp"@],
        preferred_mime_type: "image/webp"@,
        mime_types: seq!["image/webp"@],
        supports_alpha: true,
        supports_animation: true,
        supports_lossless: true,
        supports_lossy: true,
        magic_bytes_needed: 30,
    }
}

/// The definition of WebP.
pub fn webp() -> (r: &'static ImageFormatDefinition)
    ensures
        r@ == webp_view(),
        is_builtin(r, ImageFormat::WebP),
{
    let r: &'static ImageFormatDefinition = &ImageFormatDefinition {
        name: "webp",
        image_format: Some(ImageFormat::WebP),
        display_name: "WebP",
        preferred_extension: "webp",
        extensions: &["webp"],
        preferred_mime_type: "image/webp",
        mime_types: &["image/webp"],
        supports_alpha: true,
        supports_animation: true,
        supports_lossless: true,
        supports_lossy: true,
        magic_bytes_needed: 30,
        detect: &BuiltinTest { format: ImageFormat::WebP },
    };
    assert(spellings(r.extensions@) =~= webp_view().extensions);
    assert(spellings(r.mime_types@) =~= webp_view().mime_types);
    r
}

/// AVIF.
pub open spec fn avif_view() -> DefinitionView {
    DefinitionView {
        name: "avif"@,
        image_format: Some(ImageFormat::Avif),
        display_name: "AVIF"@,
        preferred_extension: "avif"@,
        extensions: seq!["avif"@],
        preferred_mime_type: "image/avif"@,
        mime_types: seq!["image/avif"@],
        supports_alpha: true,
        supports_animation: true,
        supports_lossless: true,
        supports_lossy: true,
        magic_bytes_needed: 512,
    }
}

/// The definition of AVIF.
pub fn avif() -> (r: &'static ImageFormatDefinition)
    ensures
        r@ == avif_view(),
        is_builtin(r, ImageFormat::Avif),
{
    let r: &'static ImageFormatDefinition = &ImageFormatDefinition {
        name: "avif",
        image_format: Some(ImageFormat::Avif),
        display_name: "AVIF",
        preferred_extension: "avif",
        extensions: &["avif"],
        preferred_mime_type: "image/avif",
        mime_types: &["image/avif"],
        supports_alpha: true,
        supports_animation: true,
        supports_lossless: true,
        supports_lossy: true,
        magic_bytes_needed: 512,
        detect: &BuiltinTest { format: ImageFormat::Avif },
    };
    assert(spellings(r.extensions@) =~= avif_view().extensions);
    assert(spellings(r.mime_types@) =~= avif_view().mime_types);
    r
}

/// JPEG XL.
pub open spec fn jxl_view() -> DefinitionView {
    DefinitionView {
        name: "jxl"@,
        image_format: Some(ImageFormat::Jxl),
        display_name: "JPEG XL"@,
        preferred_extension: "jxl"@,
        extensions: seq!["jxl"@],
        preferred_mime_type: "image/jxl"@,
        mime_types: seq!["image/jxl"@],
        supports_alpha: true,
        supports_animation: true,
        supports_lossless: true,
        supports_lossy: true,
        magic_bytes_needed: 256,
    }
}

/// The definition of JPEG XL.
pub fn jxl() -> (r: &'static ImageFormatDefinition)
    ensures
        r@ == jxl_view(),
        is_builtin(r, ImageFormat::Jxl),
{
    let r: &'static ImageFormatDefinition = &ImageFormatDefinition {
        name: "jxl",
        image_format: Some(ImageFormat::Jxl),
        display_name: "JPEG XL",
        preferred_extension: "jxl",
        extensions: &["jxl"],
        preferred_mime_type: "image/jxl",
        mime_types: &["image/jxl"],
        supports_alpha: true,
        supports_animation: true,
        supports_lossless: true,
        supports_lossy: true,
        magic_bytes_needed: 256,
        detect: &BuiltinTest { format: ImageFormat::Jxl },
    };
    assert(spellings(r.extensions@) =~= jxl_view().extensions);
    assert(spellings(r.mime_types@) =~= jxl_view().mime_types);
    r
}

/// HEIC.
pub open spec fn heic_view() -> DefinitionView {
    DefinitionView {
        name: "heic"@,
        image_format: Some(ImageFormat::Heic),
        display_name: "HEIC"@,
        preferred_extension: "heif"@,
        extensions: seq!["heic"@, "heif"@, "hif"@],
        preferred_mime_type: "image/heif"@,
        mime_types: seq!["image/heif"@, "image/heic"@],
        supports_alpha: true,
        supports_animation: false,
        supports_lossless: false,
        supports_lossy: true,
        magic_bytes_needed: 512,
    }
}

/// The definition of HEIC.
pub fn heic() -> (r: &'static ImageFormatDefinition)
    ensures
        r@ == heic_view(),
        is_builtin(r, ImageFormat::Heic),
{
    let r: &'static ImageFormatDefinition = &ImageFormatDefinition {
        name: "heic",
        image_format: Some(ImageFormat::Heic),
        display_name: "HEIC",
        preferred_extension: "heif",
        extensions: &["heic", "heif", "hif"],
        preferred_mime_type: "image/heif",
        mime_types: &["image/heif", "image/heic"],
        supports_alpha: true,
        supports_animation: false,
        supports_lossless: false,
        supports_lossy: true,
        magic_bytes_needed: 512,
        detect: &BuiltinTest { format: ImageFormat::Heic },
    };
    assert(spellings(r.extensions@) =~= heic_view().extensions);
    assert(spellings(r.mime_types@) =~= heic_view().mime_types);
    r
}

/// BMP.
pub open spec fn bmp_view() -> DefinitionView {
    DefinitionView {
        name: "bmp"@,
        image_format: Some(ImageFormat::Bmp),
        display_name: "BMP"@,
        preferred_extension: "bmp"@,
        extensions: seq!["bmp"@],
        preferred_mime_type: "image/bmp"@,
        mime_types: seq!["image/bmp"@, "image/x-bmp"@],
        supports_alpha: true,
        supports_animation: false,
        supports_lossless: true,
        supports_lossy: false,
        magic_bytes_needed: 54,
    }
}

/// The definition of BMP.
pub fn bmp() -> (r: &'static ImageFormatDefinition)
    ensures
        r@ == bmp_view(),
        is_builtin(r, ImageFormat::Bmp),
{
    let r: &'static ImageFormatDefinition = &ImageFormatDefinition {
        name: "bmp",
        image_format: Some(ImageFormat::Bmp),
        display_name: "BMP",
        preferred_extension: "bmp",
        extensions: &["bmp"],
        preferred_mime_type: "image/bmp",
        mime_types: &["image/bmp", "image/x-bmp"],
        supports_alpha: true,
        supports_animation: false,
        supports_lossless: true,
        supports_lossy: false,
        magic_bytes_needed: 54,
        detect: &BuiltinTest { format: ImageFormat::Bmp },
    };
    assert(spellings(r.extensions@) =~= bmp_view().extensions);
    assert(spellings(r.mime_types@) =~= bmp_view().mime_types);
    r
}

/// farbfeld.
pub open spec fn farbfeld_view() -> DefinitionView {
    DefinitionView {
        name: "farbfeld"@,
        image_format: Some(ImageFormat::Farbfeld),
        display_name: "farbfeld"@,
        preferred_extension: "ff"@,
        extensions: seq!["ff"@],
        preferred_mime_type: "image/x-farbfeld"@,
        mime_types: seq!["image/x-farbfeld"@],
        supports_alpha: true,
        supports_animation: false,
        supports_lossless: true,
        supports_lossy: false,
        magic_bytes_needed: 16,
    }
}

/// The definition of farbfeld.
pub fn farbfeld() -> (r: &'static ImageFormatDefinition)
    ensures
        r@ == farbfeld_view(),
        is_builtin(r, ImageFormat::Farbfeld),
{
    let r: &'static ImageFormatDefinition = &ImageFormatDefinition {
        name: "farbfeld",
        image_format: Some(ImageFormat::Farbfeld),
        display_name: "farbfeld",
        preferred_extension: "ff",
        extensions: &["ff"],
        preferred_mime_type: "image/x-farbfeld",
        mime_types: &["image/x-farbfeld"],
        supports_alpha: true,
        supports_animation: false,
        supports_lossless: true,
        supports_lossy: false,
        magic_bytes_needed: 16,
        detect: &BuiltinTest { format: ImageFormat::Farbfeld },
    };
    assert(spellings(r.extensions@) =~= farbfeld_view().extensions);
    assert(spellings(r.mime_types@) =~= farbfeld_view().mime_types);
    r
}

/// PNM.
pub open spec fn pnm_view() -> DefinitionView {
    DefinitionView {
        name: "pnm"@,
        image_format: Some(ImageFormat::Pnm),
        display_name: "PNM"@,
        preferred_extension: "pnm"@,
        extensions: seq!["pnm"@, "ppm"@, "pgm"@, "pbm"@, "pam"@, "pfm"@],
        preferred_mime_type: "image/x-portable-anymap"@,
        mime_types: seq![
            "image/x-portable-anymap"@,
            "image/x-portable-pixmap"@,
            "image/x-portable-graymap"@,
            "image/x-portable-bitmap"@,
        ],
        supports_alpha: true,
        supports_animation: false,
        supports_lossless: true,
        supports_lossy: false,
        magic_bytes_needed: 20,
    }
}

/// The definition of PNM.
pub fn pnm() -> (r: &'static ImageFormatDefinition)
    ensures
        r@ == pnm_view(),
        is_builtin(r, ImageFormat::Pnm),
{
    let r: &'static ImageFormatDefinition = &ImageFormatDefinition {
        name: "pnm",
        image_format: Some(ImageFormat::Pnm),
        display_name: "PNM",
        preferred_extension: "pnm",
        extensions: &["pnm", "ppm", "pgm", "pbm", "pam", "pfm"],
        preferred_mime_type: "image/x-portable-anymap",
        mime_types: &[
            "image/x-portable-anymap",
            "image/x-portable-pixmap",
            "image/x-portable-graymap",
            "image/x-portable-bitmap",
        ],
        supports_alpha: true,
        supports_animation: false,
        supports_lossless: true,
        supports_lossy: false,
        magic_bytes_needed: 20,
        detect: &BuiltinTest { format: ImageFormat::Pnm },
    };
    assert(spellings(r.extensions@) =~= pnm_view().extensions);
    assert(spellings(r.mime_types@) =~= pnm_view().mime_types);
    r
}

/// Digital Negative.
pub open spec fn dng_view() -> DefinitionView {
    DefinitionView {
        name: "dng"@,
        image_format: Some(ImageFormat::Dng),
        display_name: "Digital Negative"@,
        preferred_extension: "dng"@,
        extensions: seq!["dng"@],
        preferred_mime_type: "image/x-adobe-dng"@,
        mime_types: seq!["image/x-adobe-dng"@, "image/x-dng"@],
        supports_alpha: false,
        supports_animation: false,
        supports_lossless: true,
        supports_lossy: true,
        magic_bytes_needed: 1024,
    }
}

/// The definition of Digital Negative.
pub fn dng() -> (r: &'static ImageFormatDefinition)
    ensures
        r@ == dng_view(),
        is_builtin(r, ImageFormat::Dng),
{
    let r: &'static ImageFormatDefinition = &ImageFormatDefinition {
        name: "dng",
        image_format: Some(ImageFormat::Dng),
        display_name: "Digital Negative",
        preferred_extension: "dng",
        extensions: &["dng"],
        preferred_mime_type: "image/x-adobe-dng",
        mime_types: &["image/x-adobe-dng", "image/x-dng"],
        supports_alpha: false,
        supports_animation: false,
        supports_lossless: true,
        supports_lossy: true,
        magic_bytes_needed: 1024,
        detect: &BuiltinTest { format: ImageFormat::Dng },
    };
    assert(spellings(r.extensions@) =~= dng_view().extensions);
    assert(spellings(r.mime_types@) =~= dng_view().mime_types);
    r
}

/// Camera RAW.
pub open spec fn raw_view() -> DefinitionView {
    DefinitionView {
        name: "raw"@,
        image_format: Some(ImageFormat::Raw),
        display_name: "Camera RAW"@,
        preferred_extension: "raw"@,
        extensions: seq![
            "raw"@,
            "cr2"@,
            "cr3"@,
            "nef"@,
            "nrw"@,
            "arw"@,
            "srf"@,
            "sr2"@,
            "rw2"@,
            "pef"@,
            "orf"@,
            "erf"@,
            "raf"@,
            "3fr"@,
            "iiq"@,
            "dcr"@,
            "kdc"@,
            "mrw"@,
            "rwl"@,
            "srw"@,
        ],
        preferred_mime_type: "image/x-raw"@,
        mime_types: seq!["image/x-raw"@, "image/x-dcraw"@],
        supports_alpha: false,
        supports_animation: false,
        supports_lossless: true,
        supports_lossy: true,
        magic_bytes_needed: 1024,
    }
}

/// The definition of Camera RAW.
pub fn raw() -> (r: &'static ImageFormatDefinition)
    ensures
        r@ == raw_view(),
        is_builtin(r, ImageFormat::Raw),
{
    let r: &'static ImageFormatDefinition = &ImageFormatDefinition {
        name: "raw",
        image_format: Some(ImageFormat::Raw),
        display_name: "Camera RAW",
        preferred_extension: "raw",
        extensions: &[
            "raw",
            "cr2",
            "cr3",
            "nef",
            "nrw",
            "arw",
            "srf",
            "sr2",
            "rw2",
            "pef",
            "orf",
            "erf",
            "raf",
            "3fr",
            "iiq",
            "dcr",
            "kdc",
            "mrw",
            "rwl",
            "srw",
        ],
        preferred_mime_type: "image/x-raw",
        mime_types: &["image/x-raw", "image/x-dcraw"],
        supports_alpha: false,
        supports_animation: false,
        supports_lossless: true,
        supports_lossy: true,
        magic_bytes_needed: 1024,
        detect: &BuiltinTest { format: ImageFormat::Raw },
    };
    assert(spellings(r.extensions@) =~= raw_view().extensions);
    assert(spellings(r.mime_types@) =~= raw_view().mime_types);
    r
}

/// TIFF.
pub open spec fn tiff_view() -> DefinitionView {
    DefinitionView {
        name: "tiff"@,
        image_format: Some(ImageFormat::Tiff),
        display_name: "TIFF"@,
        preferred_extension: "tiff"@,
        extensions: seq!["tiff"@, "tif"@],
        preferred_mime_type: "image/tiff"@,
        mime_types: seq!["image/tiff"@],
        supports_alpha: true,
        supports_animation: false,
        supports_lossless: true,
        supports_lossy: false,
        magic_bytes_needed: 8,
    }
}

/// The definition of TIFF.
pub fn tiff() -> (r: &'static ImageFormatDefinition)
    ensures
        r@ == tiff_view(),
        is_builtin(r, ImageFormat::Tiff),
{
    let r: &'static ImageFormatDefinition = &ImageFormatDefinition {
        name: "tiff",
        image_format: Some(ImageFormat::Tiff),
        display_name: "TIFF",
        preferred_extension: "tiff",
        extensions: &["tiff", "tif"],
        preferred_mime_type: "image/tiff",
        mime_types: &["image/tiff"],
        supports_alpha: true,
        supports_animation: false,
        supports_lossless: true,
        supports_lossy: false,
        magic_bytes_needed: 8,
        detect: &BuiltinTest { format: ImageFormat::Tiff },
    };
    assert(spellings(r.extensions@) =~= tiff_view().extensions);
    assert(spellings(r.mime_types@) =~= tiff_view().mime_types);
    r
}

/// ICO.
pub open spec fn ico_view() -> DefinitionView {
    DefinitionView {
        name: "ico"@,
        image_format: Some(ImageFormat::Ico),
        display_name: "ICO"@,
        preferred_extension: "ico"@,
        extensions: seq!["ico"@, "cur"@],
        preferred_mime_type: "image/x-icon"@,
        mime_types: seq!["image/x-icon"@, "image/vnd.microsoft.icon"@],
        supports_alpha: true,
        supports_animation: false,
        supports_lossless: true,
        supports_lossy: false,
        magic_bytes_needed: 22,
    }
}

/// The definition of ICO.
pub fn ico() -> (r: &'static ImageFormatDefinition)
    ensures
        r@ == ico_view(),
        is_builtin(r, ImageFormat::Ico),
{
    let r: &'static ImageFormatDefinition = &ImageFormatDefinition {
        name: "ico",
        image_format: Some(ImageFormat::Ico),
        display_name: "ICO",
        preferred_extension: "ico",
        extensions: &["ico", "cur"],
        preferred_mime_type: "image/x-icon",
        mime_types: &["image/x-icon", "image/vnd.microsoft.icon"],
        supports_alpha: true,
        supports_animation: false,
        supports_lossless: true,
        supports_lossy: false,
        magic_bytes_needed: 22,
        detect: &BuiltinTest { format: ImageFormat::Ico },
    };
    assert(spellings(r.extensions@) =~= ico_view().extensions);
    assert(spellings(r.mime_types@) =~= ico_view().mime_types);
    r
}

/// QOI.
pub open spec fn qoi_view() -> DefinitionView {
    DefinitionView {
        name: "qoi"@,
        image_format: Some(ImageFormat::Qoi),
        display_name: "QOI"@,
        preferred_extension: "qoi"@,
        extensions: seq!["qoi"@],
        preferred_mime_type: "image/x-qoi"@,
        mime_types: seq!["image/x-qoi"@],
        supports_alpha: true,
        supports_animation: false,
        supports_lossless: true,
        supports_lossy: false,
        magic_bytes_needed: 14,
    }
}

/// The definition of QOI.
pub fn qoi() -> (r: &'static ImageFormatDefinition)
    ensures
        r@ == qoi_view(),
        is_builtin(r, ImageFormat::Qoi),
{
    let r: &'static ImageFormatDefinition = &ImageFormatDefinition {
        name: "qoi",
        image_format: Some(ImageFormat::Qoi),
        display_name: "QOI",
        preferred_extension: "qoi",
        extensions: &["qoi"],
        preferred_mime_type: "image/x-qoi",
        mime_types: &["image/x-qoi"],
        supports_alpha: true,
        supports_animation: false,
        supports_lossless: true,
        supports_lossy: false,
        magic_bytes_needed: 14,
        detect: &BuiltinTest { format: ImageFormat::Qoi },
    };
    assert(spellings(r.extensions@) =~= qoi_view().extensions);
    assert(spellings(r.mime_types@) =~= qoi_view().mime_types);
    r
}

/// PDF.
pub open spec fn pdf_view() -> DefinitionView {
    DefinitionView {
        name: "pdf"@,
        image_format: Some(ImageFormat::Pdf),
        display_name: "PDF"@,
        preferred_extension: "pdf"@,
        extensions: seq!["pdf"@],
        preferred_mime_type: "application/pdf"@,
        mime_types: seq!["application/pdf"@],
        supports_alpha: true,
        supports_animation: false,
        supports_lossless: true,
        supports_lossy: false,
        magic_bytes_needed: 5,
    }
}

/// The definition of PDF.
pub fn pdf() -> (r: &'static ImageFormatDefinition)
    ensures
        r@ == pdf_view(),
        is_builtin(r, ImageFormat::Pdf),
{
    let r: &'static ImageFormatDefinition = &ImageFormatDefinition {
        name: "pdf",
        image_format: Some(ImageFormat::Pdf),
        display_name: "PDF",
        preferred_extension: "pdf",
        extensions: &["pdf"],
        preferred_mime_type: "application/pdf",
        mime_types: &["application/pdf"],
        supports_alpha: true,
        supports_animation: false,
        supports_lossless: true,
        supports_lossy: false,
        magic_bytes_needed: 5,
        detect: &BuiltinTest { format: ImageFormat::Pdf },
    };
    assert(spellings(r.extensions@) =~= pdf_view().extensions);
    assert(spellings(r.mime_types@) =~= pdf_view().mime_types);
    r
}

/// OpenEXR.
pub open spec fn exr_view() -> DefinitionView {
    DefinitionView {
        name: "exr"@,
        image_format: Some(ImageFormat::Exr),
        display_name: "OpenEXR"@,
        preferred_extension: "exr"@,
        extensions: seq!["exr"@],
        preferred_mime_type: "image/x-exr"@,
        mime_types: seq!["image/x-exr"@],
        supports_alpha: true,
        supports_animation: false,
        supports_lossless: true,
        supports_lossy: true,
        magic_bytes_needed: 4,
    }
}

/// The definition of OpenEXR.
pub fn exr() -> (r: &'static ImageFormatDefinition)
    ensures
        r@ == exr_view(),
        is_builtin(r, ImageFormat::Exr),
{
    let r: &'static ImageFormatDefinition = &ImageFormatDefinition {
        name: "exr",
        image_format: Some(ImageFormat::Exr),
        display_name: "OpenEXR",
        preferred_extension: "exr",
        extensions: &["exr"],
        preferred_mime_type: "image/x-exr",
        mime_types: &["image/x-exr"],
        supports_alpha: true,
        supports_animation: false,
        supports_lossless: true,
        supports_lossy: true,
        magic_bytes_needed: 4,
        detect: &BuiltinTest { format: ImageFormat::Exr },
    };
    assert(spellings(r.extensions@) =~= exr_view().extensions);
    assert(spellings(r.mime_types@) =~= exr_view().mime_types);
    r
}

/// Radiance HDR.
pub open spec fn hdr_view() -> DefinitionView {
    DefinitionView {
        name: "hdr"@,
        image_format: Some(ImageFormat::Hdr),
        display_name: "Radiance HDR"@,
        preferred_extension: "hdr"@,
        extensions: seq!["hdr"@, "rgbe"@, "pic"@],
        preferred_mime_type: "image/vnd.radiance"@,
        mime_types: seq!["image/vnd.radiance"@, "image/x-hdr"@],
        supports_alpha: false,
        supports_animation: false,
        supports_lossless: false,
        supports_lossy: true,
        magic_bytes_needed: 11,
    }
}

/// The definition of Radiance HDR.
pub fn hdr() -> (r: &'static ImageFormatDefinition)
    ensures
        r@ == hdr_view(),
        is_builtin(r, ImageFormat::Hdr),
{
    let r: &'static ImageFormatDefinition = &ImageFormatDefinition {
        name: "hdr",
        image_format: Some(ImageFormat::Hdr),
        display_name: "Radiance HDR",
        preferred_extension: "hdr",
        extensions: &["hdr", "rgbe", "pic"],
        preferred_mime_type: "image/vnd.radiance",
        mime_types: &["image/vnd.radiance", "image/x-hdr"],
        supports_alpha: false,
        supports_animation: false,
        supports_lossless: false,
        supports_lossy: true,
        magic_bytes_needed: 11,
        detect: &BuiltinTest { format: ImageFormat::Hdr },
    };
    assert(spellings(r.extensions@) =~= hdr_view().extensions);
    assert(spellings(r.mime_types@) =~= hdr_view().mime_types);
    r
}

/// JPEG 2000.
pub open spec fn jp2_view() -> DefinitionView {
    DefinitionView {
        name: "jp2"@,
        image_format: Some(ImageFormat::Jp2),
        display_name: "JPEG 2000"@,
        preferred_extension: "jp2"@,
        extensions: seq!["jp2"@, "j2k"@, "j2c"@, "jpf"@, "jpx"@],
        preferred_mime_type: "image/jp2"@,
        mime_types: seq!["image/jp2"@, "image/jpx"@, "image/x-jp2"@],
        supports_alpha: true,
        supports_animation: false,
        supports_lossless: true,
        supports_lossy: true,
        magic_bytes_needed: 12,
    }
}

/// The definition of JPEG 2000.
pub fn jp2() -> (r: &'static ImageFormatDefinition)
    ensures
        r@ == jp2_view(),
        is_builtin(r, ImageFormat::Jp2),
{
    let r: &'static ImageFormatDefinition = &ImageFormatDefinition {
        name: "jp2",
        image_format: Some(ImageFormat::Jp2),
        display_name: "JPEG 2000",
        preferred_extension: "jp2",
        extensions: &["jp2", "j2k", "j2c", "jpf", "jpx"],
        preferred_mime_type: "image/jp2",
        mime_types: &["image/jp2", "image/jpx", "image/x-jp2"],
        supports_alpha: true,
        supports_animation: false,
        supports_lossless: true,
        supports_lossy: true,
        magic_bytes_needed: 12,
        detect: &BuiltinTest { format: ImageFormat::Jp2 },
    };
    assert(spellings(r.extensions@) =~= jp2_view().extensions);
    assert(spellings(r.mime_types@) =~= jp2_view().mime_types);
    r
}

/// TGA.
pub open spec fn tga_view() -> DefinitionView {
    DefinitionView {
        name: "tga"@,
        image_format: Some(ImageFormat::Tga),
        display_name: "TGA"@,
        preferred_extension: "tga"@,
        extensions: seq!["tga"@, "targa"@, "icb"@, "vda"@, "vst"@],
        preferred_mime_type: "image/x-tga"@,
        mime_types: seq!["image/x-tga"@, "image/x-targa"@],
        supports_alpha: true,
        supports_animation: false,
        supports_lossless: true,
        supports_lossy: false,
        magic_bytes_needed: 18,
    }
}

/// The definition of TGA.
pub fn tga() -> (r: &'static ImageFormatDefinition)
    ensures
        r@ == tga_view(),
        is_builtin(r, ImageFormat::Tga),
{
    let r: &'static ImageFormatDefinition = &ImageFormatDefinition {
        name: "tga",
        image_format: Some(ImageFormat::Tga),
        display_name: "TGA",
        preferred_extension: "tga",
        extensions: &["tga", "targa", "icb", "vda", "vst"],
        preferred_mime_type: "image/x-tga",
        mime_types: &["image/x-tga", "image/x-targa"],
        supports_alpha: true,
        supports_animation: false,
        supports_lossless: true,
        supports_lossy: false,
        magic_bytes_needed: 18,
        detect: &BuiltinTest { format: ImageFormat::Tga },
    };
    assert(spellings(r.extensions@) =~= tga_view().extensions);
    assert(spellings(r.mime_types@) =~= tga_view().mime_types);
    r
}

/// SVG.
pub open spec fn svg_view() -> DefinitionView {
    DefinitionView {
        name: "svg"@,
        image_format: Some(ImageFormat::Svg),
        display_name: "SVG"@,
        preferred_extension: "svg"@,
        extensions: seq!["svg"@, "svgz"@],
        preferred_mime_type: "image/svg+xml"@,
        mime_types: seq!["image/svg+xml"@],
        supports_alpha: true,
        supports_animation: false,
        supports_lossless: true,
        supports_lossy: false,
        magic_bytes_needed: 1024,
    }
}

/// The definition of SVG.
pub fn svg() -> (r: &'static ImageFormatDefinition)
    ensures
        r@ == svg_view(),
        is_builtin(r, ImageFormat::Svg),
{
    let r: &'static ImageFormatDefinition = &ImageFormatDefinition {
        name: "svg",
        image_format: Some(ImageFormat::Svg),
        display_name: "SVG",
        preferred_extension: "svg",
        extensions: &["svg", "svgz"],
        preferred_mime_type: "image/svg+xml",
        mime_types: &["image/svg+xml"],
        supports_alpha: true,
        supports_animation: false,
        supports_lossless: true,
        supports_lossy: false,
        magic_bytes_needed: 1024,
        detect: &BuiltinTest { format: ImageFormat::Svg },
    };
    assert(spellings(r.extensions@) =~= svg_view().extensions);
    assert(spellings(r.mime_types@) =~= svg_view().mime_types);
    r
}

/// Whether `d` is a definition of the built-in format `f`, which it detects.
pub open spec fn is_builtin(d: &'static ImageFormatDefinition, f: ImageFormat) -> bool {
    d.image_format == Some(f) && forall|data: Seq<u8>|
        #[trigger] d.detects(data) == looks_like(f, data)
}

/// What the definition of a built-in format says.
pub open spec fn described(f: ImageFormat) -> Option<DefinitionView> {
    match f {
        ImageFormat::Jpeg => Some(jpeg_view()),
        ImageFormat::Png => Some(png_view()),
        ImageFormat::Gif => Some(gif_view()),
        ImageFormat::WebP => Some(webp_view()),
        ImageFormat::Avif => Some(avif_view()),
        ImageFormat::Jxl => Some(jxl_view()),
        ImageFormat::Heic => Some(heic_view()),
        ImageFormat::Bmp => Some(bmp_view()),
        ImageFormat::Farbfeld => Some(farbfeld_view()),
        ImageFormat::Pnm => Some(pnm_view()),
        ImageFormat::Dng => Some(dng_view()),
        ImageFormat::Raw => Some(raw_view()),
        ImageFormat::Tiff => Some(tiff_view()),
        ImageFormat::Ico => Some(ico_view()),
        ImageFormat::Qoi => Some(qoi_view()),
        ImageFormat::Pdf => Some(pdf_view()),
        ImageFormat::Exr => Some(exr_view()),
        ImageFormat::Hdr => Some(hdr_view()),
        ImageFormat::Jp2 => Some(jp2_view()),
        ImageFormat::Tga => Some(tga_view()),
        ImageFormat::Svg => Some(svg_view()),
        _ => None,
    }
}

/// The definition of a built-in format; none for others.
pub fn builtin(f: ImageFormat) -> (r: Option<&'static ImageFormatDefinition>)
    ensures
        r matches Some(d) ==> described(f) == Some(d@) && is_builtin(d, f),
        r is None ==> described(f) is None,
{
    match f {
        ImageFormat::Jpeg => Some(jpeg()),
        ImageFormat::Png => Some(png()),
        ImageFormat::Gif => Some(gif()),
        ImageFormat::WebP => Some(webp()),
        ImageFormat::Avif => Some(avif()),
        ImageFormat::Jxl => Some(jxl()),
        ImageFormat::Heic => Some(heic()),
        ImageFormat::Bmp => Some(bmp()),
        ImageFormat::Farbfeld => Some(farbfeld()),
        ImageFormat::Pnm => Some(pnm()),
        ImageFormat::Dng => Some(dng()),
        ImageFormat::Raw => Some(raw()),
        ImageFormat::Tiff => Some(tiff()),
        ImageFormat::Ico => Some(ico()),
        ImageFormat::Qoi => Some(qoi()),
        ImageFormat::Pdf => Some(pdf()),
        ImageFormat::Exr => Some(exr()),
        ImageFormat::Hdr => Some(hdr()),
        ImageFormat::Jp2 => Some(jp2()),
        ImageFormat::Tga => Some(tga()),
        ImageFormat::Svg => Some(svg()),
        _ => None,
    }
}

/// The built-in formats in the order in which they are tried. AVIF comes before
/// HEIC, so that it wins a container of both brands; the digital negative comes
/// before raw formats and TIFF, which share its header; SVG, told by a
/// heuristic, comes last.
pub open spec fn builtin_order() -> Seq<ImageFormat> {
    seq![
        ImageFormat::Jpeg,
        ImageFormat::Png,
        ImageFormat::Gif,
        ImageFormat::WebP,
        ImageFormat::Avif,
        ImageFormat::Jxl,
        ImageFormat::Heic,
        ImageFormat::Bmp,
        ImageFormat::Farbfeld,
        ImageFormat::Pnm,
        ImageFormat::Dng,
        ImageFormat::Raw,
        ImageFormat::Tiff,
        ImageFormat::Ico,
        ImageFormat::Qoi,
        ImageFormat::Pdf,
        ImageFormat::Exr,
        ImageFormat::Hdr,
        ImageFormat::Jp2,
        ImageFormat::Tga,
        ImageFormat::Svg,
    ]
}

/// The definitions of the built-in formats in the order in which they are tried.
pub fn all_builtins() -> (r: Vec<&'static ImageFormatDefinition>)
    ensures
        r@.len() == builtin_order().len(),
        forall|i: int|
            0 <= i < r@.len() ==> is_builtin(#[trigger] r@[i], builtin_order()[i]) && described(
                builtin_order()[i],
            ) == Some(r@[i]@),
{
    vec![
        jpeg(),
        png(),
        gif(),
        webp(),
        avif(),
        jxl(),
        heic(),
        bmp(),
        farbfeld(),
        pnm(),
        dng(),
        raw(),
        tiff(),
        ico(),
        qoi(),
        pdf(),
        exr(),
        hdr(),
        jp2(),
        tga(),
        svg(),
    ]
}

} // verus!
