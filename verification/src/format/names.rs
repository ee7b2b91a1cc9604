//! No two built-in formats share a file extension or a MIME type.
use super::builtins::described;
use super::definition::ImageFormat;
use super::registry::{has_extension, has_mime_type};
use super::sniff::lower;
use super::text::lower_bytes;
use vstd::prelude::*;

verus! {

/// The lower-case bytes of an ASCII text, one for each character.
proof fn lemma_lower_ascii(text: Seq<char>)
    requires
        vstd::utf8::is_ascii_chars(text),
    ensures
        lower_bytes(text).len() == text.len(),
        forall|i: int|
            0 <= i < text.len() ==> #[trigger] lower_bytes(text)[i] == lower(text[i] as u8),
{
    vstd::utf8::is_ascii_chars_encode_utf8(text);
}

// ── MIME types ──────────────────────────────────────────────────────────────

/// Whether a MIME type has this length, and these letters at offsets 6 and 8.
spec fn told_mime(b: Seq<u8>, n: nat, x: char, y: char) -> bool {
    b.len() == n && b[6] == x as u8 && b[8] == y as u8
}

/// How a MIME type of a built-in format is told from those of the others.
spec fn mime_of(f: ImageFormat, b: Seq<u8>) -> bool {
    match f {
        ImageFormat::Jpeg => told_mime(b, 10, 'j', 'e'),
        ImageFormat::Png => told_mime(b, 9, 'p', 'g'),
        ImageFormat::Gif => told_mime(b, 9, 'g', 'f'),
        ImageFormat::WebP => told_mime(b, 10, 'w', 'b'),
        ImageFormat::Avif => told_mime(b, 10, 'a', 'i'),
        ImageFormat::Jxl => told_mime(b, 9, 'j', 'l'),
        ImageFormat::Heic => told_mime(b, 10, 'h', 'i'),
        ImageFormat::Bmp => told_mime(b, 9, 'b', 'p') || told_mime(b, 11, 'x', 'b'),
        ImageFormat::Farbfeld => told_mime(b, 16, 'x', 'f'),
        ImageFormat::Pnm => told_mime(b, 23, 'x', 'p') || told_mime(b, 24, 'x', 'p'),
        ImageFormat::Dng => told_mime(b, 17, 'x', 'a') || told_mime(b, 11, 'x', 'd'),
        ImageFormat::Raw => told_mime(b, 11, 'x', 'r') || told_mime(b, 13, 'x', 'd'),
        ImageFormat::Tiff => told_mime(b, 10, 't', 'f'),
        ImageFormat::Ico => told_mime(b, 12, 'x', 'i') || told_mime(b, 24, 'v', 'd'),
        ImageFormat::Qoi => told_mime(b, 11, 'x', 'q'),
        ImageFormat::Pdf => told_mime(b, 15, 'a', 'i'),
        ImageFormat::Exr => told_mime(b, 11, 'x', 'e'),
        ImageFormat::Hdr => told_mime(b, 18, 'v', 'd') || told_mime(b, 11, 'x', 'h'),
        ImageFormat::Jp2 => {
            ||| told_mime(b, 9, 'j', '2')
            ||| told_mime(b, 9, 'j', 'x')
            ||| told_mime(b, 11, 'x', 'j')
        },
        ImageFormat::Tga => told_mime(b, 11, 'x', 't') || told_mime(b, 13, 'x', 't'),
        ImageFormat::Svg => told_mime(b, 13, 's', 'g'),
        _ => false,
    }
}

/// A MIME type that a built-in format lists is told as its own.
proof fn lemma_mime_told(f: ImageFormat, s: Seq<char>)
    requires
        described(f) matches Some(d) && has_mime_type(d.mime_types, s),
    ensures
        mime_of(f, lower_bytes(s)),
{
    match f {
        ImageFormat::Jpeg => {
            reveal_strlit("image/jpeg");
            lemma_lower_ascii("image/jpeg"@);
        },
        ImageFormat::Png => {
            reveal_strlit("image/png");
            lemma_lower_ascii("image/png"@);
        },
        ImageFormat::Gif => {
            reveal_strlit("image/gif");
            lemma_lower_ascii("image/gif"@);
        },
        ImageFormat::WebP => {
            reveal_strlit("image/webp");
            lemma_lower_ascii("image/webp"@);
        },
        ImageFormat::Avif => {
            reveal_strlit("image/avif");
            lemma_lower_ascii("image/avif"@);
        },
        ImageFormat::Jxl => {
            reveal_strlit("image/jxl");
            lemma_lower_ascii("image/jxl"@);
        },
        ImageFormat::Heic => {
            reveal_strlit("image/heif");
            lemma_lower_ascii("image/heif"@);
            reveal_strlit("image/heic");
            lemma_lower_ascii("image/heic"@);
        },
        ImageFormat::Bmp => {
            reveal_strlit("image/bmp");
            lemma_lower_ascii("image/bmp"@);
            reveal_strlit("image/x-bmp");
            lemma_lower_ascii("image/x-bmp"@);
        },
        ImageFormat::Farbfeld => {
            reveal_strlit("image/x-farbfeld");
            lemma_lower_ascii("image/x-farbfeld"@);
        },
        ImageFormat::Pnm => {
            reveal_strlit("image/x-portable-anymap");
            lemma_lower_ascii("image/x-portable-anymap"@);
            reveal_strlit("image/x-portable-pixmap");
            lemma_lower_ascii("image/x-portable-pixmap"@);
            reveal_strlit("image/x-portable-graymap");
            lemma_lower_ascii("image/x-portable-graymap"@);
            reveal_strlit("image/x-portable-bitmap");
            lemma_lower_ascii("image/x-portable-bitmap"@);
        },
        ImageFormat::Dng => {
            reveal_strlit("image/x-adobe-dng");
            lemma_lower_ascii("image/x-adobe-dng"@);
            reveal_strlit("image/x-dng");
            lemma_lower_ascii("image/x-dng"@);
        },
        ImageFormat::Raw => {
            reveal_strlit("image/x-raw");
            lemma_lower_ascii("image/x-raw"@);
            reveal_strlit("image/x-dcraw");
            lemma_lower_ascii("image/x-dcraw"@);
        },
        ImageFormat::Tiff => {
            reveal_strlit("image/tiff");
            lemma_lower_ascii("image/tiff"@);
        },
        ImageFormat::Ico => {
            reveal_strlit("image/x-icon");
            lemma_lower_ascii("image/x-icon"@);
            reveal_strlit("image/vnd.microsoft.icon");
            lemma_lower_ascii("image/vnd.microsoft.icon"@);
        },
        ImageFormat::Qoi => {
            reveal_strlit("image/x-qoi");
            lemma_lower_ascii("image/x-qoi"@);
        },
        ImageFormat::Pdf => {
            reveal_strlit("application/pdf");
            lemma_lower_ascii("application/pdf"@);
        },
        ImageFormat::Exr => {
            reveal_strlit("image/x-exr");
            lemma_lower_ascii("image/x-exr"@);
        },
        ImageFormat::Hdr => {
            reveal_strlit("image/vnd.radiance");
            lemma_lower_ascii("image/vnd.radiance"@);
            reveal_strlit("image/x-hdr");
            lemma_lower_ascii("image/x-hdr"@);
        },
        ImageFormat::Jp2 => {
            reveal_strlit("image/jp2");
            lemma_lower_ascii("image/jp2"@);
            reveal_strlit("image/jpx");
            lemma_lower_ascii("image/jpx"@);
            reveal_strlit("image/x-jp2");
            lemma_lower_ascii("image/x-jp2"@);
        },
        ImageFormat::Tga => {
            reveal_strlit("image/x-tga");
            lemma_lower_ascii("image/x-tga"@);
            reveal_strlit("image/x-targa");
            lemma_lower_ascii("image/x-targa"@);
        },
        ImageFormat::Svg => {
            reveal_strlit("image/svg+xml");
            lemma_lower_ascii("image/svg+xml"@);
        },
        _ => {},
    }
}

/// A MIME type that one built-in format lists no other lists.
pub proof fn lemma_mime_types_apart(f: ImageFormat, g: ImageFormat, s: Seq<char>)
    requires
        described(f) matches Some(d) && has_mime_type(d.mime_types, s),
        described(g) matches Some(d) && has_mime_type(d.mime_types, s),
    ensures
        f == g,
{
    lemma_mime_told(f, s);
    lemma_mime_told(g, s);
}

// ── File extensions ─────────────────────────────────────────────────────────

/// Whether an extension has this length, and starts with these letters.
spec fn told_extension(b: Seq<u8>, n: nat, x: char, y: char, z: char) -> bool {
    b.len() == n && b[0] == x as u8 && b[1] == y as u8 && b[2] == z as u8
}

/// How an extension of a built-in format is told from those of the others.
spec fn extension_of(f: ImageFormat, b: Seq<u8>) -> bool {
    match f {
        ImageFormat::Jpeg => {
            ||| told_extension(b, 3, 'j', 'p', 'g')
            ||| told_extension(b, 4, 'j', 'p', 'e')
            ||| told_extension(b, 3, 'j', 'p', 'e')
            ||| told_extension(b, 4, 'j', 'f', 'i')
        },
        ImageFormat::Png => told_extension(b, 3, 'p', 'n', 'g'),
        ImageFormat::Gif => told_extension(b, 3, 'g', 'i', 'f'),
        ImageFormat::WebP => told_extension(b, 4, 'w', 'e', 'b'),
        ImageFormat::Avif => told_extension(b, 4, 'a', 'v', 'i'),
        ImageFormat::Jxl => told_extension(b, 3, 'j', 'x', 'l'),
        ImageFormat::Heic => {
            ||| told_extension(b, 4, 'h', 'e', 'i')
            ||| told_extension(b, 3, 'h', 'i', 'f')
        },
        ImageFormat::Bmp => told_extension(b, 3, 'b', 'm', 'p'),
        ImageFormat::Farbfeld => b.len() == 2,
        ImageFormat::Pnm => {
            ||| told_extension(b, 3, 'p', 'n', 'm')
            ||| told_extension(b, 3, 'p', 'p', 'm')
            ||| told_extension(b, 3, 'p', 'g', 'm')
            ||| told_extension(b, 3, 'p', 'b', 'm')
            ||| told_extension(b, 3, 'p', 'a', 'm')
            ||| told_extension(b, 3, 'p', 'f', 'm')
        },
        ImageFormat::Dng => told_extension(b, 3, 'd', 'n', 'g'),
        ImageFormat::Raw => {
            ||| told_extension(b, 3, 'r', 'a', 'w')
            ||| told_extension(b, 3, 'c', 'r', '2')
            ||| told_extension(b, 3, 'c', 'r', '3')
            ||| told_extension(b, 3, 'n', 'e', 'f')
            ||| told_extension(b, 3, 'n', 'r', 'w')
            ||| told_extension(b, 3, 'a', 'r', 'w')
            ||| told_extension(b, 3, 's', 'r', 'f')
            ||| told_extension(b, 3, 's', 'r', '2')
            ||| told_extension(b, 3, 'r', 'w', '2')
            ||| told_extension(b, 3, 'p', 'e', 'f')
            ||| told_extension(b, 3, 'o', 'r', 'f')
            ||| told_extension(b, 3, 'e', 'r', 'f')
            ||| told_extension(b, 3, 'r', 'a', 'f')
            ||| told_extension(b, 3, '3', 'f', 'r')
            ||| told_extension(b, 3, 'i', 'i', 'q')
            ||| told_extension(b, 3, 'd', 'c', 'r')
            ||| told_extension(b, 3, 'k', 'd', 'c')
            ||| told_extension(b, 3, 'm', 'r', 'w')
            ||| told_extension(b, 3, 'r', 'w', 'l')
            ||| told_extension(b, 3, 's', 'r', 'w')
        },
        ImageFormat::Tiff => {
            ||| told_extension(b, 4, 't', 'i', 'f')
            ||| told_extension(b, 3, 't', 'i', 'f')
        },
        ImageFormat::Ico => {
            ||| told_extension(b, 3, 'i', 'c', 'o')
            ||| told_extension(b, 3, 'c', 'u', 'r')
        },
        ImageFormat::Qoi => told_extension(b, 3, 'q', 'o', 'i'),
        ImageFormat::Pdf => told_extension(b, 3, 'p', 'd', 'f'),
        ImageFormat::Exr => told_extension(b, 3, 'e', 'x', 'r'),
        ImageFormat::Hdr => {
            ||| told_extension(b, 3, 'h', 'd', 'r')
            ||| told_extension(b, 4, 'r', 'g', 'b')
            ||| told_extension(b, 3, 'p', 'i', 'c')
        },
        ImageFormat::Jp2 => {
            ||| told_extension(b, 3, 'j', 'p', '2')
            ||| told_extension(b, 3, 'j', '2', 'k')
            ||| told_extension(b, 3, 'j', '2', 'c')
            ||| told_extension(b, 3, 'j', 'p', 'f')
            ||| told_extension(b, 3, 'j', 'p', 'x')
        },
        ImageFormat::Tga => {
            ||| told_extension(b, 3, 't', 'g', 'a')
            ||| told_extension(b, 5, 't', 'a', 'r')
            ||| told_extension(b, 3, 'i', 'c', 'b')
            ||| told_extension(b, 3, 'v', 'd', 'a')
            ||| told_extension(b, 3, 'v', 's', 't')
        },
        ImageFormat::Svg => {
            ||| told_extension(b, 3, 's', 'v', 'g')
            ||| told_extension(b, 4, 's', 'v', 'g')
        },
        _ => false,
    }
}

/// An extension that a built-in format lists is told as its own.
proof fn lemma_extension_told(f: ImageFormat, s: Seq<char>)
    requires
        described(f) matches Some(d) && has_extension(d.extensions, s),
    ensures
        extension_of(f, lower_bytes(s)),
{
    match f {
        ImageFormat::Jpeg => {
            reveal_strlit("jpg");
            lemma_lower_ascii("jpg"@);
            reveal_strlit("jpeg");
            lemma_lower_ascii("jpeg"@);
            reveal_strlit("jpe");
            lemma_lower_ascii("jpe"@);
            reveal_strlit("jfif");
            lemma_lower_ascii("jfif"@);
        },
        ImageFormat::Png => {
            reveal_strlit("png");
            lemma_lower_ascii("png"@);
        },
        ImageFormat::Gif => {
            reveal_strlit("gif");
            lemma_lower_ascii("gif"@);
        },
        ImageFormat::WebP => {
            reveal_strlit("webp");
            lemma_lower_ascii("webp"@);
        },
        ImageFormat::Avif => {
            reveal_strlit("avif");
            lemma_lower_ascii("avif"@);
        },
        ImageFormat::Jxl => {
            reveal_strlit("jxl");
            lemma_lower_ascii("jxl"@);
        },
        ImageFormat::Heic => {
            reveal_strlit("heic");
            lemma_lower_ascii("heic"@);
            reveal_strlit("heif");
            lemma_lower_ascii("heif"@);
            reveal_strlit("hif");
            lemma_lower_ascii("hif"@);
        },
        ImageFormat::Bmp => {
            reveal_strlit("bmp");
            lemma_lower_ascii("bmp"@);
        },
        ImageFormat::Farbfeld => {
            reveal_strlit("ff");
            lemma_lower_ascii("ff"@);
        },
        ImageFormat::Pnm => {
            reveal_strlit("pnm");
            lemma_lower_ascii("pnm"@);
            reveal_strlit("ppm");
            lemma_lower_ascii("ppm"@);
            reveal_strlit("pgm");
            lemma_lower_ascii("pgm"@);
            reveal_strlit("pbm");
            lemma_lower_ascii("pbm"@);
            reveal_strlit("pam");
            lemma_lower_ascii("pam"@);
            reveal_strlit("pfm");
            lemma_lower_ascii("pfm"@);
        },
        ImageFormat::Dng => {
            reveal_strlit("dng");
            lemma_lower_ascii("dng"@);
        },
        ImageFormat::Raw => {
            reveal_strlit("raw");
            lemma_lower_ascii("raw"@);
            reveal_strlit("cr2");
            lemma_lower_ascii("cr2"@);
            reveal_strlit("cr3");
            lemma_lower_ascii("cr3"@);
            reveal_strlit("nef");
            lemma_lower_ascii("nef"@);
            reveal_strlit("nrw");
            lemma_lower_ascii("nrw"@);
            reveal_strlit("arw");
            lemma_lower_ascii("arw"@);
            reveal_strlit("srf");
            lemma_lower_ascii("srf"@);
            reveal_strlit("sr2");
            lemma_lower_ascii("sr2"@);
            reveal_strlit("rw2");
            lemma_lower_ascii("rw2"@);
            reveal_strlit("pef");
            lemma_lower_ascii("pef"@);
            reveal_strlit("orf");
            lemma_lower_ascii("orf"@);
            reveal_strlit("erf");
            lemma_lower_ascii("erf"@);
            reveal_strlit("raf");
            lemma_lower_ascii("raf"@);
            reveal_strlit("3fr");
            lemma_lower_ascii("3fr"@);
            reveal_strlit("iiq");
            lemma_lower_ascii("iiq"@);
            reveal_strlit("dcr");
            lemma_lower_ascii("dcr"@);
            reveal_strlit("kdc");
            lemma_lower_ascii("kdc"@);
            reveal_strlit("mrw");
            lemma_lower_ascii("mrw"@);
            reveal_strlit("rwl");
            lemma_lower_ascii("rwl"@);
            reveal_strlit("srw");
            lemma_lower_ascii("srw"@);
        },
        ImageFormat::Tiff => {
            reveal_strlit("tiff");
            lemma_lower_ascii("tiff"@);
            reveal_strlit("tif");
            lemma_lower_ascii("tif"@);
        },
        ImageFormat::Ico => {
            reveal_strlit("ico");
            lemma_lower_ascii("ico"@);
            reveal_strlit("cur");
            lemma_lower_ascii("cur"@);
        },
        ImageFormat::Qoi => {
            reveal_strlit("qoi");
            lemma_lower_ascii("qoi"@);
        },
        ImageFormat::Pdf => {
            reveal_strlit("pdf");
            lemma_lower_ascii("pdf"@);
        },
        ImageFormat::Exr => {
            reveal_strlit("exr");
            lemma_lower_ascii("exr"@);
        },
        ImageFormat::Hdr => {
            reveal_strlit("hdr");
            lemma_lower_ascii("hdr"@);
            reveal_strlit("rgbe");
            lemma_lower_ascii("rgbe"@);
            reveal_strlit("pic");
            lemma_lower_ascii("pic"@);
        },
        ImageFormat::Jp2 => {
            reveal_strlit("jp2");
            lemma_lower_ascii("jp2"@);
            reveal_strlit("j2k");
            lemma_lower_ascii("j2k"@);
            reveal_strlit("j2c");
            lemma_lower_ascii("j2c"@);
            reveal_strlit("jpf");
            lemma_lower_ascii("jpf"@);
            reveal_strlit("jpx");
            lemma_lower_ascii("jpx"@);
        },
        ImageFormat::Tga => {
            reveal_strlit("tga");
            lemma_lower_ascii("tga"@);
            reveal_strlit("targa");
            lemma_lower_ascii("targa"@);
            reveal_strlit("icb");
            lemma_lower_ascii("icb"@);
            reveal_strlit("vda");
            lemma_lower_ascii("vda"@);
            reveal_strlit("vst");
            lemma_lower_ascii("vst"@);
        },
        ImageFormat::Svg => {
            reveal_strlit("svg");
            lemma_lower_ascii("svg"@);
            reveal_strlit("svgz");
            lemma_lower_ascii("svgz"@);
        },
        _ => {},
    }
}

/// An extension that one built-in format lists no other lists.
pub proof fn lemma_extensions_apart(f: ImageFormat, g: ImageFormat, s: Seq<char>)
    requires
        described(f) matches Some(d) && has_extension(d.extensions, s),
        described(g) matches Some(d) && has_extension(d.extensions, s),
    ensures
        f == g,
{
    lemma_extension_told(f, s);
    lemma_extension_told(g, s);
}

} // verus!
