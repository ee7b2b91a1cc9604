//! What the built-in formats are called, and what their names lead to.
use super::builtins::{builtin_order, described, is_builtin};
use super::definition::{ImageFormat, ImageFormatDefinition};
use super::registry::{
    are_builtins, detecting, format_for, has_extension, has_mime_type,
    law_listed_extensions_lead_back, law_listed_mime_types_lead_back, with_extension,
    with_mime_type,
};
use super::text::lower_bytes;
use crate::search::{first_where, lemma_first_where, lemma_first_where_holds};
use vstd::prelude::*;

verus! {

/// A file extension leads to a built-in format exactly if it is one of those that
/// the format lists, whatever its case.
pub proof fn law_extension_lookup(
    defs: Seq<&'static ImageFormatDefinition>,
    f: ImageFormat,
    s: Seq<char>,
)
    requires
        are_builtins(defs),
        described(f) is Some,
    ensures
        format_for(defs, with_extension(s)) == Some(f) <==> exists|k: int|
            0 <= k < (described(f)->0).extensions.len() && lower_bytes(s) == lower_bytes(
                #[trigger] (described(f)->0).extensions[k],
            ),
{
    let d = described(f)->0;
    let p = with_extension(s);
    if exists|k: int|
        0 <= k < d.extensions.len() && lower_bytes(s) == lower_bytes(#[trigger] d.extensions[k]) {
        let k = choose|k: int|
            0 <= k < d.extensions.len() && lower_bytes(s) == lower_bytes(
                #[trigger] d.extensions[k],
            );
        law_listed_extensions_lead_back(defs, f, d.extensions[k], s);
    }
    if format_for(defs, p) == Some(f) {
        lemma_first_where_holds(defs, p);
        let i = first_where(defs, p);
        assert(is_builtin(defs[i], builtin_order()[i]));
        assert(described(builtin_order()[i]) == Some(defs[i]@));
        assert(has_extension(d.extensions, s));
    }
}

/// A MIME type leads to a built-in format exactly if it is one of those that the
/// format lists, whatever its case.
pub proof fn law_mime_type_lookup(
    defs: Seq<&'static ImageFormatDefinition>,
    f: ImageFormat,
    s: Seq<char>,
)
    requires
        are_builtins(defs),
        described(f) is Some,
    ensures
        format_for(defs, with_mime_type(s)) == Some(f) <==> exists|k: int|
            0 <= k < (described(f)->0).mime_types.len() && lower_bytes(s) == lower_bytes(
                #[trigger] (described(f)->0).mime_types[k],
            ),
{
    let d = described(f)->0;
    let p = with_mime_type(s);
    if exists|k: int|
        0 <= k < d.mime_types.len() && lower_bytes(s) == lower_bytes(#[trigger] d.mime_types[k]) {
        let k = choose|k: int|
            0 <= k < d.mime_types.len() && lower_bytes(s) == lower_bytes(
                #[trigger] d.mime_types[k],
            );
        law_listed_mime_types_lead_back(defs, f, d.mime_types[k], s);
    }
    if format_for(defs, p) == Some(f) {
        lemma_first_where_holds(defs, p);
        let i = first_where(defs, p);
        assert(is_builtin(defs[i], builtin_order()[i]));
        assert(described(builtin_order()[i]) == Some(defs[i]@));
        assert(has_mime_type(d.mime_types, s));
    }
}

/// The file extensions of the built-in formats.
pub proof fn law_extensions_of_formats(f: ImageFormat)
    ensures
        described(f) matches Some(d) ==> {
            &&& f is Jpeg ==> d.extensions == seq!["jpg"@, "jpeg"@, "jpe"@, "jfif"@]
            &&& f is Png ==> d.extensions == seq!["png"@]
            &&& f is Gif ==> d.extensions == seq!["gif"@]
            &&& f is WebP ==> d.extensions == seq!["webp"@]
            &&& f is Avif ==> d.extensions == seq!["avif"@]
            &&& f is Jxl ==> d.extensions == seq!["jxl"@]
            &&& f is Heic ==> d.extensions == seq!["heic"@, "heif"@, "hif"@]
            &&& f is Bmp ==> d.extensions == seq!["bmp"@]
            &&& f is Farbfeld ==> d.extensions == seq!["ff"@]
            &&& f is Pnm ==> d.extensions == seq!["pnm"@, "ppm"@, "pgm"@, "pbm"@, "pam"@, "pfm"@]
            &&& f is Dng ==> d.extensions == seq!["dng"@]
            &&& f is Raw ==> d.extensions == seq!["raw"@, "cr2"@, "cr3"@, "nef"@, "nrw"@, "arw"@,
                "srf"@, "sr2"@, "rw2"@, "pef"@, "orf"@, "erf"@, "raf"@, "3fr"@, "iiq"@, "dcr"@,
                "kdc"@, "mrw"@, "rwl"@, "srw"@]
            &&& f is Tiff ==> d.extensions == seq!["tiff"@, "tif"@]
            &&& f is Ico ==> d.extensions == seq!["ico"@, "cur"@]
            &&& f is Qoi ==> d.extensions == seq!["qoi"@]
            &&& f is Pdf ==> d.extensions == seq!["pdf"@]
            &&& f is Exr ==> d.extensions == seq!["exr"@]
            &&& f is Hdr ==> d.extensions == seq!["hdr"@, "rgbe"@, "pic"@]
            &&& f is Jp2 ==> d.extensions == seq!["jp2"@, "j2k"@, "j2c"@, "jpf"@, "jpx"@]
            &&& f is Tga ==> d.extensions == seq!["tga"@, "targa"@, "icb"@, "vda"@, "vst"@]
            &&& f is Svg ==> d.extensions == seq!["svg"@, "svgz"@]
        },
{
}

/// The MIME types of the built-in formats.
pub proof fn law_mime_types_of_formats(f: ImageFormat)
    ensures
        described(f) matches Some(d) ==> {
            &&& f is Jpeg ==> d.mime_types == seq!["image/jpeg"@]
            &&& f is Png ==> d.mime_types == seq!["image/png"@]
            &&& f is Gif ==> d.mime_types == seq!["image/gif"@]
            &&& f is WebP ==> d.mime_types == seq!["image/webp"@]
            &&& f is Avif ==> d.mime_types == seq!["image/avif"@]
            &&& f is Jxl ==> d.mime_types == seq!["image/jxl"@]
            &&& f is Heic ==> d.mime_types == seq!["image/heif"@, "image/heic"@]
            &&& f is Bmp ==> d.mime_types == seq!["image/bmp"@, "image/x-bmp"@]
            &&& f is Farbfeld ==> d.mime_types == seq!["image/x-farbfeld"@]
            &&& f is Pnm ==> d.mime_types == seq!["image/x-portable-anymap"@,
                "image/x-portable-pixmap"@, "image/x-portable-graymap"@,
                "image/x-portable-bitmap"@]
            &&& f is Dng ==> d.mime_types == seq!["image/x-adobe-dng"@, "image/x-dng"@]
            &&& f is Raw ==> d.mime_types == seq!["image/x-raw"@, "image/x-dcraw"@]
            &&& f is Tiff ==> d.mime_types == seq!["image/tiff"@]
            &&& f is Ico ==> d.mime_types == seq!["image/x-icon"@, "image/vnd.microsoft.icon"@]
            &&& f is Qoi ==> d.mime_types == seq!["image/x-qoi"@]
            &&& f is Pdf ==> d.mime_types == seq!["application/pdf"@]
            &&& f is Exr ==> d.mime_types == seq!["image/x-exr"@]
            &&& f is Hdr ==> d.mime_types == seq!["image/vnd.radiance"@, "image/x-hdr"@]
            &&& f is Jp2 ==> d.mime_types == seq!["image/jp2"@, "image/jpx"@, "image/x-jp2"@]
            &&& f is Tga ==> d.mime_types == seq!["image/x-tga"@, "image/x-targa"@]
            &&& f is Svg ==> d.mime_types == seq!["image/svg+xml"@]
        },
{
}

/// The extension and MIME type that the built-in formats are written with.
pub proof fn law_preferred_names(f: ImageFormat)
    ensures
        described(f) matches Some(d) ==> {
            &&& f is Jpeg ==> d.preferred_extension == "jpg"@ && d.preferred_mime_type
                == "image/jpeg"@
            &&& f is Png ==> d.preferred_extension == "png"@ && d.preferred_mime_type
                == "image/png"@
            &&& f is Gif ==> d.preferred_extension == "gif"@ && d.preferred_mime_type
                == "image/gif"@
            &&& f is WebP ==> d.preferred_extension == "webp"@ && d.preferred_mime_type
                == "image/webp"@
            &&& f is Avif ==> d.preferred_extension == "avif"@ && d.preferred_mime_type
                == "image/avif"@
            &&& f is Jxl ==> d.preferred_extension == "jxl"@ && d.preferred_mime_type
                == "image/jxl"@
            &&& f is Heic ==> d.preferred_extension == "heif"@ && d.preferred_mime_type
                == "image/heif"@
            &&& f is Bmp ==> d.preferred_extension == "bmp"@ && d.preferred_mime_type
                == "image/bmp"@
            &&& f is Farbfeld ==> d.preferred_extension == "ff"@ && d.preferred_mime_type
                == "image/x-farbfeld"@
            &&& f is Pnm ==> d.preferred_extension == "pnm"@ && d.preferred_mime_type
                == "image/x-portable-anymap"@
            &&& f is Dng ==> d.preferred_extension == "dng"@ && d.preferred_mime_type
                == "image/x-adobe-dng"@
            &&& f is Raw ==> d.preferred_extension == "raw"@ && d.preferred_mime_type
                == "image/x-raw"@
            &&& f is Tiff ==> d.preferred_extension == "tiff"@ && d.preferred_mime_type
                == "image/tiff"@
            &&& f is Ico ==> d.preferred_extension == "ico"@ && d.preferred_mime_type
                == "image/x-icon"@
            &&& f is Qoi ==> d.preferred_extension == "qoi"@ && d.preferred_mime_type
                == "image/x-qoi"@
            &&& f is Pdf ==> d.preferred_extension == "pdf"@ && d.preferred_mime_type
                == "application/pdf"@
            &&& f is Exr ==> d.preferred_extension == "exr"@ && d.preferred_mime_type
                == "image/x-exr"@
            &&& f is Hdr ==> d.preferred_extension == "hdr"@ && d.preferred_mime_type
                == "image/vnd.radiance"@
            &&& f is Jp2 ==> d.preferred_extension == "jp2"@ && d.preferred_mime_type
                == "image/jp2"@
            &&& f is Tga ==> d.preferred_extension == "tga"@ && d.preferred_mime_type
                == "image/x-tga"@
            &&& f is Svg ==> d.preferred_extension == "svg"@ && d.preferred_mime_type
                == "image/svg+xml"@
        },
{
}

/// The names of the built-in formats, for programs and for people.
pub proof fn law_names_of_formats(f: ImageFormat)
    ensures
        described(f) matches Some(d) ==> {
            &&& f is Jpeg ==> d.name == "jpeg"@ && d.display_name == "JPEG"@
            &&& f is Png ==> d.name == "png"@ && d.display_name == "PNG"@
            &&& f is Gif ==> d.name == "gif"@ && d.display_name == "GIF"@
            &&& f is WebP ==> d.name == "webp"@ && d.display_name == "WebP"@
            &&& f is Avif ==> d.name == "avif"@ && d.display_name == "AVIF"@
            &&& f is Jxl ==> d.name == "jxl"@ && d.display_name == "JPEG XL"@
            &&& f is Heic ==> d.name == "heic"@ && d.display_name == "HEIC"@
            &&& f is Bmp ==> d.name == "bmp"@ && d.display_name == "BMP"@
            &&& f is Farbfeld ==> d.name == "farbfeld"@ && d.display_name == "farbfeld"@
            &&& f is Pnm ==> d.name == "pnm"@ && d.display_name == "PNM"@
            &&& f is Dng ==> d.name == "dng"@ && d.display_name == "Digital Negative"@
            &&& f is Raw ==> d.name == "raw"@ && d.display_name == "Camera RAW"@
            &&& f is Tiff ==> d.name == "tiff"@ && d.display_name == "TIFF"@
            &&& f is Ico ==> d.name == "ico"@ && d.display_name == "ICO"@
            &&& f is Qoi ==> d.name == "qoi"@ && d.display_name == "QOI"@
            &&& f is Pdf ==> d.name == "pdf"@ && d.display_name == "PDF"@
            &&& f is Exr ==> d.name == "exr"@ && d.display_name == "OpenEXR"@
            &&& f is Hdr ==> d.name == "hdr"@ && d.display_name == "Radiance HDR"@
            &&& f is Jp2 ==> d.name == "jp2"@ && d.display_name == "JPEG 2000"@
            &&& f is Tga ==> d.name == "tga"@ && d.display_name == "TGA"@
            &&& f is Svg ==> d.name == "svg"@ && d.display_name == "SVG"@
        },
{
}

/// Whether two bytes are the same letter, in either case, or the same byte.
pub open spec fn same_letter(a: u8, b: u8) -> bool {
    ||| a == b
    ||| 0x41 <= a <= 0x5A && b == a + 32
    ||| 0x41 <= b <= 0x5A && a == b + 32
}

/// Names are the same in any case exactly if their bytes are, one by one.
pub proof fn law_same_name_in_any_case(s: Seq<char>, t: Seq<char>)
    ensures
        lower_bytes(s) == lower_bytes(t) <==> ({
            let a = vstd::utf8::encode_utf8(s);
            let b = vstd::utf8::encode_utf8(t);
            a.len() == b.len() && forall|i: int| 0 <= i < a.len() ==> same_letter(#[trigger] a[i], b[i])
        }),
{
    let a = vstd::utf8::encode_utf8(s);
    let b = vstd::utf8::encode_utf8(t);
    let x = lower_bytes(s);
    let y = lower_bytes(t);
    if x == y {
        assert(a.len() == x.len() && b.len() == y.len());
        assert forall|i: int| 0 <= i < a.len() implies same_letter(#[trigger] a[i], b[i]) by {
            assert(x[i] == y[i]);
        }
    }
    if a.len() == b.len() && forall|i: int|
        0 <= i < a.len() ==> same_letter(#[trigger] a[i], b[i]) {
        assert forall|i: int| 0 <= i < x.len() implies x[i] == y[i] by {
            assert(same_letter(a[i], b[i]));
        }
        assert(x =~= y);
    }
}

/// In any registry the first definition that detects data, or has a name, gives
/// the format, and without one there is none.
pub proof fn law_first_definition_gives_the_format(
    defs: Seq<&'static ImageFormatDefinition>,
    data: Seq<u8>,
    i: int,
)
    requires
        0 <= i <= defs.len(),
        i < defs.len() ==> defs[i].detect.detects(data),
        forall|j: int| 0 <= j < i ==> !(#[trigger] defs[j]).detect.detects(data),
    ensures
        i < defs.len() ==> format_for(defs, detecting(data)) == Some(defs[i].format()),
        i == defs.len() ==> format_for(defs, detecting(data)) is None,
{
    lemma_first_where(defs, detecting(data), i);
}

/// In any registry the first definition that lists an extension, in any case, gives
/// the format, and without one there is none.
pub proof fn law_first_extension_gives_the_format(
    defs: Seq<&'static ImageFormatDefinition>,
    s: Seq<char>,
    i: int,
    k: int,
)
    requires
        0 <= i <= defs.len(),
        i < defs.len() ==> 0 <= k < defs[i]@.extensions.len() && lower_bytes(s) == lower_bytes(
            defs[i]@.extensions[k],
        ),
        forall|j: int, m: int|
            0 <= j < i && 0 <= m < (#[trigger] defs[j])@.extensions.len() ==> lower_bytes(s)
                != lower_bytes(#[trigger] defs[j]@.extensions[m]),
    ensures
        i < defs.len() ==> format_for(defs, with_extension(s)) == Some(defs[i].format()),
        i == defs.len() ==> format_for(defs, with_extension(s)) is None,
{
    let p = with_extension(s);
    if i < defs.len() {
        assert(has_extension(defs[i]@.extensions, s));
    }
    assert forall|j: int| 0 <= j < i implies !p(#[trigger] defs[j]) by {}
    lemma_first_where(defs, p, i);
}

/// In any registry the first definition that lists a MIME type, in any case, gives
/// the format, and without one there is none.
pub proof fn law_first_mime_type_gives_the_format(
    defs: Seq<&'static ImageFormatDefinition>,
    s: Seq<char>,
    i: int,
    k: int,
)
    requires
        0 <= i <= defs.len(),
        i < defs.len() ==> 0 <= k < defs[i]@.mime_types.len() && lower_bytes(s) == lower_bytes(
            defs[i]@.mime_types[k],
        ),
        forall|j: int, m: int|
            0 <= j < i && 0 <= m < (#[trigger] defs[j])@.mime_types.len() ==> lower_bytes(s)
                != lower_bytes(#[trigger] defs[j]@.mime_types[m]),
    ensures
        i < defs.len() ==> format_for(defs, with_mime_type(s)) == Some(defs[i].format()),
        i == defs.len() ==> format_for(defs, with_mime_type(s)) is None,
{
    let p = with_mime_type(s);
    if i < defs.len() {
        assert(has_mime_type(defs[i]@.mime_types, s));
    }
    assert forall|j: int| 0 <= j < i implies !p(#[trigger] defs[j]) by {}
    lemma_first_where(defs, p, i);
}

} // verus!
