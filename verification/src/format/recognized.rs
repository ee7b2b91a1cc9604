//! What the detection of containers, documents and headers without a signature
//! goes by, and what the built-in formats can do.
use super::builtins::{builtin_order, described, looks_like};
use super::definition::{ImageFormat, ImageFormatDefinition};
use super::registry::{are_builtins, detecting, format_for, law_first_match_wins};
use super::signatures::reads;
use super::sniff::{brands_start, code_at, ftyp_end, has_at, lower, starts_ci};
use super::svg::{is_space, svg_doctype, svg_tag, trimmed, unmarked, window, xml_declaration};
use crate::exif::codec::{u32_at, ByteOrder};
use vstd::prelude::*;

verus! {

// ── ISO base media files ────────────────────────────────────────────────────

/// The four-byte code at `o`, first byte highest.
pub open spec fn brand(d: Seq<u8>, o: int) -> u32 {
    u32_at(d, o, ByteOrder::Big)
}

/// `avif` or `avis`.
pub open spec fn names_avif(b: u32) -> bool {
    b == 0x61766966 || b == 0x61766973
}

/// `heic`, `heix`, `hevc`, `hevx`, `heim`, `heis`, `hevm` or `hevs`.
pub open spec fn names_heic(b: u32) -> bool {
    b == 0x68656963 || b == 0x68656978 || b == 0x68657663 || b == 0x68657678 || b == 0x6865696D || b
        == 0x68656973 || b == 0x6865766D || b == 0x68657673
}

/// Where the compatible brands of a file-type box lie: behind the major brand and
/// its version, to the end of the box or of the data. A size of zero reaches to
/// the end of the data, and one stands for a 64-bit size behind the name.
pub open spec fn brands_between(d: Seq<u8>, start: int, end: int) -> bool {
    let size = brand(d, 0);
    let long = brand(d, 8) * 0x1_0000_0000 + brand(d, 12);
    ||| size >= 2 && start == 16 && size <= d.len() && end == size
    ||| size >= 2 && start == 16 && size > d.len() && end == d.len()
    ||| size == 0 && start == 16 && end == d.len()
    ||| size == 1 && start == 24 && d.len() >= 16 && long <= d.len() && end == long
    ||| size == 1 && start == 24 && d.len() >= 16 && long > d.len() && end == d.len()
    ||| size == 1 && start == 24 && d.len() < 16 && end == 0
}

/// A file-type box of brand AVIF or HEIC makes a file of that format; a generic
/// brand (`mif1`, `msf1`) does where one of the compatible brands is. Nothing else
/// does.
pub proof fn law_brands(d: Seq<u8>, start: int, end: int)
    requires
        d.len() >= 12 ==> brands_between(d, start, end),
    ensures
        looks_like(ImageFormat::Avif, d) <==> d.len() >= 12 && brand(d, 4) == 0x66747970 && (
        names_avif(brand(d, 8)) || (brand(d, 8) == 0x6D696631 || brand(d, 8) == 0x6D736631)
            && exists|k: int|
            0 <= k && start + 4 * k + 4 <= end && names_avif(#[trigger] brand(d, start + 4 * k))),
        looks_like(ImageFormat::Heic, d) <==> d.len() >= 12 && brand(d, 4) == 0x66747970 && (
        names_heic(brand(d, 8)) || (brand(d, 8) == 0x6D696631 || brand(d, 8) == 0x6D736631)
            && exists|k: int|
            0 <= k && start + 4 * k + 4 <= end && names_heic(#[trigger] brand(d, start + 4 * k))),
{
    let avif = super::sniff::avif_brands();
    let heic = super::sniff::heic_brands();
    assert forall|b: u32| #[trigger] avif.contains(b) == names_avif(b) by {
        assert(avif[0] == 0x61766966 && avif[1] == 0x61766973);
    }
    assert forall|b: u32| #[trigger] heic.contains(b) == names_heic(b) by {
        assert(heic[0] == 0x68656963 && heic[1] == 0x68656978 && heic[2] == 0x68657663 && heic[3]
            == 0x68657678 && heic[4] == 0x6865696D && heic[5] == 0x68656973 && heic[6] == 0x6865766D
            && heic[7] == 0x68657673);
    }
    if d.len() >= 12 {
        assert(brands_start(d) == start && ftyp_end(d) == end);
        lemma_listing(d, start, end, avif);
        lemma_listing(d, start, end, heic);
        if exists|k: int|
            0 <= k && start + 4 * k + 4 <= end && names_avif(#[trigger] brand(d, start + 4 * k)) {
            let k = choose|k: int|
                0 <= k && start + 4 * k + 4 <= end && names_avif(#[trigger] brand(d, start + 4 * k));
            assert(avif.contains(brand(d, start + 4 * k)));
        }
        if exists|k: int|
            0 <= k && start + 4 * k + 4 <= end && avif.contains(#[trigger] brand(d, start + 4 * k)) {
            let k = choose|k: int|
                0 <= k && start + 4 * k + 4 <= end && avif.contains(
                    #[trigger] brand(d, start + 4 * k),
                );
            assert(names_avif(brand(d, start + 4 * k)));
        }
        if exists|k: int|
            0 <= k && start + 4 * k + 4 <= end && names_heic(#[trigger] brand(d, start + 4 * k)) {
            let k = choose|k: int|
                0 <= k && start + 4 * k + 4 <= end && names_heic(#[trigger] brand(d, start + 4 * k));
            assert(heic.contains(brand(d, start + 4 * k)));
        }
        if exists|k: int|
            0 <= k && start + 4 * k + 4 <= end && heic.contains(#[trigger] brand(d, start + 4 * k)) {
            let k = choose|k: int|
                0 <= k && start + 4 * k + 4 <= end && heic.contains(
                    #[trigger] brand(d, start + 4 * k),
                );
            assert(names_heic(brand(d, start + 4 * k)));
        }
    }
}

/// A listed brand, by its place.
proof fn lemma_listing(d: Seq<u8>, start: int, end: int, brands: Seq<u32>)
    requires
        brands_start(d) == start,
        ftyp_end(d) == end,
    ensures
        super::sniff::lists_brand(d, brands) <==> exists|k: int|
            0 <= k && start + 4 * k + 4 <= end && brands.contains(
                #[trigger] brand(d, start + 4 * k),
            ),
{
    if super::sniff::lists_brand(d, brands) {
        let k = choose|k: int|
            0 <= k && brands_start(d) + 4 * k + 4 <= ftyp_end(d) && brands.contains(
                #[trigger] code_at(d, brands_start(d) + 4 * k),
            );
        assert(brands.contains(brand(d, start + 4 * k)));
    }
    if exists|k: int|
        0 <= k && start + 4 * k + 4 <= end && brands.contains(#[trigger] brand(d, start + 4 * k)) {
        let k = choose|k: int|
            0 <= k && start + 4 * k + 4 <= end && brands.contains(
                #[trigger] brand(d, start + 4 * k),
            );
        assert(brands.contains(code_at(d, brands_start(d) + 4 * k)));
    }
}

// ── Letters ─────────────────────────────────────────────────────────────────

/// Lowering maps `A` to `Z` to `a` to `z` and leaves every other byte alone.
pub proof fn law_lower_case(b: u8)
    ensures
        0x41 <= b <= 0x5A ==> lower(b) == b + 32,
        b < 0x41 || b > 0x5A ==> lower(b) == b,
{
}

// ── SVG ─────────────────────────────────────────────────────────────────────

/// Whether `b` is the letter with lower-case code `l`, in either case.
pub open spec fn letter(b: u8, l: int) -> bool {
    b == l || b == l - 32
}

/// Whether `<svg` stands at `k`, in either case.
pub open spec fn svg_at(d: Seq<u8>, k: int, len: int) -> bool {
    k + 4 <= len && d[k] == 0x3C && letter(d[k + 1], 0x73) && letter(d[k + 2], 0x76) && letter(
        d[k + 3],
        0x67,
    )
}

/// Whether `<!doctype svg` stands at `k`, in either case.
pub open spec fn doctype_at(d: Seq<u8>, k: int, len: int) -> bool {
    k + 13 <= len && d[k] == 0x3C && d[k + 1] == 0x21 && letter(d[k + 2], 0x64) && letter(
        d[k + 3],
        0x6F,
    ) && letter(d[k + 4], 0x63) && letter(d[k + 5], 0x74) && letter(d[k + 6], 0x79) && letter(
        d[k + 7],
        0x70,
    ) && letter(d[k + 8], 0x65) && d[k + 9] == 0x20 && letter(d[k + 10], 0x73) && letter(
        d[k + 11],
        0x76,
    ) && letter(d[k + 12], 0x67)
}

/// Whether `<?xml` stands at `k`, in either case.
pub open spec fn xml_at(d: Seq<u8>, k: int, len: int) -> bool {
    k + 5 <= len && d[k] == 0x3C && d[k + 1] == 0x3F && letter(d[k + 2], 0x78) && letter(
        d[k + 3],
        0x6D,
    ) && letter(d[k + 4], 0x6C)
}

/// What is left behind white space.
proof fn lemma_trimmed(s: Seq<u8>, i: int)
    requires
        0 <= i <= s.len(),
        forall|j: int| 0 <= j < i ==> is_space(#[trigger] s[j]),
        i < s.len() ==> !is_space(s[i]),
    ensures
        trimmed(s) == s.skip(i),
    decreases i,
{
    if i == 0 {
        assert(s.skip(0) =~= s);
    } else {
        let t = s.drop_first();
        assert forall|j: int| 0 <= j < i - 1 implies is_space(#[trigger] t[j]) by {
            assert(t[j] == s[j + 1]);
        }
        assert(is_space(s[0]));
        lemma_trimmed(t, i - 1);
        assert(t.skip(i - 1) =~= s.skip(i));
    }
}

/// `<svg` at the start of what is left.
proof fn lemma_starts_svg(d: Seq<u8>, s: Seq<u8>, k: int, len: int)
    requires
        0 <= k <= len <= d.len(),
        s == d.subrange(k, len),
    ensures
        starts_ci(s, svg_tag()) == svg_at(d, k, len),
{
    let p = svg_tag();
    if starts_ci(s, p) {
        assert(lower(s[0]) == lower(p[0]) && lower(s[1]) == lower(p[1]) && lower(s[2]) == lower(p[2])
            && lower(s[3]) == lower(p[3]));
    }
}

/// `<?xml` at the start of what is left.
proof fn lemma_starts_xml(d: Seq<u8>, s: Seq<u8>, k: int, len: int)
    requires
        0 <= k <= len <= d.len(),
        s == d.subrange(k, len),
    ensures
        starts_ci(s, xml_declaration()) == xml_at(d, k, len),
{
    let p = xml_declaration();
    if starts_ci(s, p) {
        assert(lower(s[0]) == lower(p[0]) && lower(s[1]) == lower(p[1]) && lower(s[2]) == lower(p[2])
            && lower(s[3]) == lower(p[3]) && lower(s[4]) == lower(p[4]));
    }
}

/// `<!doctype svg` at the start of what is left.
proof fn lemma_starts_doctype(d: Seq<u8>, s: Seq<u8>, k: int, len: int)
    requires
        0 <= k <= len <= d.len(),
        s == d.subrange(k, len),
    ensures
        starts_ci(s, svg_doctype()) == doctype_at(d, k, len),
{
    let p = svg_doctype();
    if starts_ci(s, p) {
        assert(lower(s[0]) == lower(p[0]) && lower(s[1]) == lower(p[1]) && lower(s[2]) == lower(p[2])
            && lower(s[3]) == lower(p[3]) && lower(s[4]) == lower(p[4]) && lower(s[5]) == lower(p[5])
            && lower(s[6]) == lower(p[6]) && lower(s[7]) == lower(p[7]) && lower(s[8]) == lower(p[8])
            && lower(s[9]) == lower(p[9]) && lower(s[10]) == lower(p[10]) && lower(s[11]) == lower(
            p[11],
        ) && lower(s[12]) == lower(p[12]));
    }
}

/// Whether the text of a document starts at `i`: behind a byte order mark, if
/// there is one, and white space (blank, tab, line feed, form feed, return), within
/// the first `len` bytes.
pub open spec fn text_starts(d: Seq<u8>, i: int, len: int) -> bool {
    let mark = len >= 3 && d[0] == 0xEF && d[1] == 0xBB && d[2] == 0xBF;
    let first: int = if mark { 3 } else { 0 };
    &&& first <= i <= len
    &&& forall|j: int|
        first <= j < i ==> (#[trigger] d[j] == 0x20 || d[j] == 0x09 || d[j] == 0x0A || d[j] == 0x0C
            || d[j] == 0x0D)
    &&& i < len ==> d[i] != 0x20 && d[i] != 0x09 && d[i] != 0x0A && d[i] != 0x0C && d[i] != 0x0D
}

/// A document whose text starts at `i` is SVG exactly if it is not compressed and
/// its text opens with `<svg`, with `<!doctype svg`, or with `<?xml` and holds
/// `<svg` at `i` or later; all within its first kilobyte, whatever the case.
pub proof fn law_svg_text(d: Seq<u8>, i: int, len: int)
    requires
        d.len() <= 1024 && len == d.len() || d.len() > 1024 && len == 1024,
        text_starts(d, i, len),
    ensures
        looks_like(ImageFormat::Svg, d) <==> !(d.len() >= 2 && d[0] == 0x1F && d[1] == 0x8B) && (
        svg_at(d, i, len) || doctype_at(d, i, len) || (xml_at(d, i, len) && exists|k: int|
            i <= k && #[trigger] svg_at(d, k, len))),
{
    let w = window(d);
    let first: int = if len >= 3 && d[0] == 0xEF && d[1] == 0xBB && d[2] == 0xBF { 3 } else { 0 };
    assert(w =~= d.subrange(0, len));
    let u = unmarked(w);
    assert(u =~= d.subrange(first, len));
    assert forall|j: int| 0 <= j < i - first implies is_space(#[trigger] u[j]) by {
        assert(u[j] == d[first + j]);
    }
    assert(i < len ==> u[i - first] == d[i]);
    lemma_trimmed(u, i - first);
    let s = trimmed(u);
    assert(s =~= d.subrange(i, len));
    lemma_starts_svg(d, s, i, len);
    lemma_starts_doctype(d, s, i, len);
    lemma_starts_xml(d, s, i, len);
    if exists|k: int| i <= k && #[trigger] svg_at(d, k, len) {
        let k = choose|k: int| i <= k && #[trigger] svg_at(d, k, len);
        assert(s.skip(k - i) =~= d.subrange(k, len));
        lemma_starts_svg(d, s.skip(k - i), k, len);
        assert(starts_ci(s.skip(k - i), svg_tag()));
    }
    if super::svg::holds_svg_tag(s) {
        let j = choose|j: int| 0 <= j <= s.len() && #[trigger] starts_ci(s.skip(j), svg_tag());
        assert(s.skip(j) =~= d.subrange(i + j, len));
        lemma_starts_svg(d, s.skip(j), i + j, len);
        assert(svg_at(d, i + j, len));
    }
}

// ── TGA ─────────────────────────────────────────────────────────────────────

/// A file of at least 44 bytes that ends with `TRUEVISION-XFILE.` and a zero byte
/// is TGA, whatever its header.
pub proof fn law_tga_footer(d: Seq<u8>)
    requires
        d.len() >= 44,
        reads(
            d,
            d.len() - 18,
            seq![
                0x54u8, 0x52, 0x55, 0x45, 0x56, 0x49, 0x53, 0x49, 0x4F, 0x4E, 0x2D, 0x58, 0x46, 0x49,
                0x4C, 0x45, 0x2E, 0x00,
            ],
        ),
    ensures
        looks_like(ImageFormat::Tga, d),
{
    let f = super::tga::tga_footer();
    assert(d.subrange(d.len() - 18, d.len() as int) =~= f);
}

/// A shorter file, or one without the footer, is TGA exactly if its header is
/// sound: an identifier below 128 bytes, a size in both directions, descriptor
/// flags below 64; of types 1 and 9 a color map and eight bits a pixel, of types 3
/// and 11 eight bits, of types 2 and 10 fifteen, sixteen, 24 or 32; at most one
/// alpha bit with sixteen, eight with 32 and none else; color map entries of
/// fifteen, sixteen, 24 or 32 bits.
pub proof fn law_tga_header(d: Seq<u8>)
    requires
        d.len() < 44 || d[d.len() - 1] != 0 || d[d.len() - 18] != 0x54,
    ensures
        looks_like(ImageFormat::Tga, d) <==> ({
            let t = d[2];
            let bits = d[16];
            let alpha = d[17] as int % 16;
            let map = d[7];
            &&& d.len() >= 18
            &&& d[0] < 128
            &&& d[1] == 0 && !(t == 1 || t == 9) || d[1] == 1 && (map == 15 || map == 16 || map == 24
                || map == 32)
            &&& !(d[12] == 0 && d[13] == 0)
            &&& !(d[14] == 0 && d[15] == 0)
            &&& ({
                ||| (t == 1 || t == 9 || t == 3 || t == 11) && bits == 8 && alpha == 0
                ||| (t == 2 || t == 10) && (bits == 15 || bits == 24) && alpha == 0
                ||| (t == 2 || t == 10) && bits == 16 && alpha <= 1
                ||| (t == 2 || t == 10) && bits == 32 && alpha <= 8
            })
            &&& d[17] <= 63
        }),
{
    let f = super::tga::tga_footer();
    if d.len() >= 44 && has_at(d, d.len() - 18, f) {
        let s = d.subrange(d.len() - 18, d.len() as int);
        assert(s[0] == d[d.len() - 18] && s[17] == d[d.len() - 1]);
        assert(f[0] == 0x54 && f[17] == 0);
    }
}

/// What has no signature at the start is told last: data is detected as TGA or SVG
/// only if it looks like no other built-in format.
pub proof fn law_signatures_come_first(
    defs: Seq<&'static ImageFormatDefinition>,
    data: Seq<u8>,
    f: ImageFormat,
)
    requires
        are_builtins(defs),
        !(f is Tga || f is Svg),
        looks_like(f, data),
    ensures
        format_for(defs, detecting(data)) != Some(ImageFormat::Tga),
        format_for(defs, detecting(data)) != Some(ImageFormat::Svg),
        format_for(defs, detecting(data)) is Some,
{
    let i = lemma_place(f);
    let p = detecting(data);
    crate::search::lemma_first_where_holds(defs, p);
    assert(super::builtins::is_builtin(defs[i], builtin_order()[i]));
    assert(p(defs[i]));
    law_first_match_wins(defs, data, 19);
    law_first_match_wins(defs, data, 20);
    assert(builtin_order()[19] == ImageFormat::Tga);
    assert(builtin_order()[20] == ImageFormat::Svg);
}

/// Every format that is told from bytes has a place among the first nineteen, but
/// for TGA and SVG.
proof fn lemma_place(f: ImageFormat) -> (i: int)
    requires
        !(f is Tga || f is Svg),
        exists|d: Seq<u8>| looks_like(f, d),
    ensures
        0 <= i < 19,
        builtin_order()[i] == f,
{
    let order = builtin_order();
    if f == ImageFormat::Jpeg {
        0
    } else if f == ImageFormat::Png {
        1
    } else if f == ImageFormat::Gif {
        2
    } else if f == ImageFormat::WebP {
        3
    } else if f == ImageFormat::Avif {
        4
    } else if f == ImageFormat::Jxl {
        5
    } else if f == ImageFormat::Heic {
        6
    } else if f == ImageFormat::Bmp {
        7
    } else if f == ImageFormat::Farbfeld {
        8
    } else if f == ImageFormat::Pnm {
        9
    } else if f == ImageFormat::Dng {
        10
    } else if f == ImageFormat::Raw {
        11
    } else if f == ImageFormat::Tiff {
        12
    } else if f == ImageFormat::Ico {
        13
    } else if f == ImageFormat::Qoi {
        14
    } else if f == ImageFormat::Pdf {
        15
    } else if f == ImageFormat::Exr {
        16
    } else if f == ImageFormat::Hdr {
        17
    } else {
        18
    }
}

// ── What formats can do ─────────────────────────────────────────────────────

/// Which built-in formats can hold transparency, animation, exact and lossy
/// images.
pub proof fn law_format_abilities(f: ImageFormat)
    ensures
        described(f) matches Some(d) ==> {
            &&& d.supports_alpha <==> !(f is Jpeg || f is Dng || f is Raw || f is Hdr)
            &&& d.supports_animation <==> f is Png || f is Gif || f is WebP || f is Avif || f is Jxl
            &&& d.supports_lossless <==> !(f is Jpeg || f is Heic || f is Hdr)
            &&& d.supports_lossy <==> f is Jpeg || f is WebP || f is Avif || f is Jxl || f is Heic
                || f is Dng || f is Raw || f is Exr || f is Hdr || f is Jp2
        },
        described(f) is None <==> f is Unknown || f is Custom,
{
}

/// How many bytes it takes to tell a built-in format and its size.
pub proof fn law_bytes_needed(f: ImageFormat)
    ensures
        described(f) matches Some(d) ==> {
            &&& f is Exr ==> d.magic_bytes_needed == 4
            &&& f is Pdf ==> d.magic_bytes_needed == 5
            &&& f is Tiff ==> d.magic_bytes_needed == 8
            &&& f is Hdr ==> d.magic_bytes_needed == 11
            &&& f is Jp2 ==> d.magic_bytes_needed == 12
            &&& f is Gif ==> d.magic_bytes_needed == 13
            &&& f is Qoi ==> d.magic_bytes_needed == 14
            &&& f is Farbfeld ==> d.magic_bytes_needed == 16
            &&& f is Tga ==> d.magic_bytes_needed == 18
            &&& f is Pnm ==> d.magic_bytes_needed == 20
            &&& f is Ico ==> d.magic_bytes_needed == 22
            &&& f is WebP ==> d.magic_bytes_needed == 30
            &&& f is Png ==> d.magic_bytes_needed == 33
            &&& f is Bmp ==> d.magic_bytes_needed == 54
            &&& f is Jxl ==> d.magic_bytes_needed == 256
            &&& f is Avif || f is Heic ==> d.magic_bytes_needed == 512
            &&& f is Dng || f is Raw || f is Svg ==> d.magic_bytes_needed == 1024
            &&& f is Jpeg ==> d.magic_bytes_needed == 2048
            &&& d.magic_bytes_needed <= ImageFormat::RECOMMENDED_PROBE_BYTES
        },
        ImageFormat::RECOMMENDED_PROBE_BYTES == 4096,
{
}

} // verus!
