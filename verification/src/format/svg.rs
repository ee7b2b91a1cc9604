//! SVG documents.
use super::sniff::{starts_ci, starts_with_ascii_ci};
use vstd::prelude::*;

verus! {

/// How much of a document is looked at.
pub const SVG_WINDOW: usize = 1024;

/// Whether a byte is ASCII white space.
pub open spec fn is_space(b: u8) -> bool {
    b == 0x20 || b == 0x09 || b == 0x0A || b == 0x0C || b == 0x0D
}

/// `s` without leading white space.
pub open spec fn trimmed(s: Seq<u8>) -> Seq<u8>
    decreases s.len(),
{
    if s.len() > 0 && is_space(s[0]) {
        trimmed(s.drop_first())
    } else {
        s
    }
}

/// `s` without a leading byte order mark.
pub open spec fn unmarked(s: Seq<u8>) -> Seq<u8> {
    if s.len() >= 3 && s[0] == 0xEF && s[1] == 0xBB && s[2] == 0xBF {
        s.skip(3)
    } else {
        s
    }
}

/// The first bytes of a document.
pub open spec fn window(d: Seq<u8>) -> Seq<u8> {
    if d.len() > SVG_WINDOW {
        d.take(SVG_WINDOW as int)
    } else {
        d
    }
}

/// `<svg`.
pub open spec fn svg_tag() -> Seq<u8> {
    seq![0x3Cu8, 0x73, 0x76, 0x67]
}

/// `<!doctype svg`.
pub open spec fn svg_doctype() -> Seq<u8> {
    seq![0x3Cu8, 0x21, 0x64, 0x6F, 0x63, 0x74, 0x79, 0x70, 0x65, 0x20, 0x73, 0x76, 0x67]
}

/// `<?xml`.
pub open spec fn xml_declaration() -> Seq<u8> {
    seq![0x3Cu8, 0x3F, 0x78, 0x6D, 0x6C]
}

/// Whether `<svg` stands anywhere in `s`, whatever its case.
pub open spec fn holds_svg_tag(s: Seq<u8>) -> bool {
    exists|k: int| 0 <= k <= s.len() && #[trigger] starts_ci(s.skip(k), svg_tag())
}

/// Whether a document is uncompressed SVG: behind a byte order mark and white
/// space it opens with an `svg` element or document type, or with an XML
/// declaration and holds an `svg` element.
pub open spec fn is_svg(d: Seq<u8>) -> bool {
    let s = trimmed(unmarked(window(d)));
    &&& !(d.len() >= 2 && d[0] == 0x1F && d[1] == 0x8B)
    &&& {
        ||| starts_ci(s, svg_tag())
        ||| starts_ci(s, svg_doctype())
        ||| starts_ci(s, xml_declaration()) && holds_svg_tag(s)
    }
}

/// Whether a byte is ASCII white space.
fn ascii_space(b: u8) -> (r: bool)
    ensures
        r == is_space(b),
{
    b == 0x20 || b == 0x09 || b == 0x0A || b == 0x0C || b == 0x0D
}

/// Whether `<svg` stands anywhere in `data`.
fn contains_svg_tag(data: &[u8]) -> (r: bool)
    ensures
        r == holds_svg_tag(data@),
{
    let n: usize = data.len();
    let mut k: usize = 0;
    while k < n
        invariant
            k <= n == data@.len(),
            forall|j: int| 0 <= j < k ==> !#[trigger] starts_ci(data@.skip(j), svg_tag()),
        decreases n - k,
    {
        let rest = vstd::slice::slice_subrange(data, k, n);
        assert(rest@ =~= data@.skip(k as int));
        let tag: [u8; 4] = [0x3C, 0x73, 0x76, 0x67];
        assert(tag@ =~= svg_tag());
        if starts_with_ascii_ci(rest, &tag) {
            return true;
        }
        k += 1;
    }
    assert(data@.skip(n as int).len() == 0);
    false
}

/// How many bytes of white space `s` has from `start` on.
fn skip_space(s: &[u8], start: usize) -> (i: usize)
    requires
        start <= s@.len(),
    ensures
        start <= i <= s@.len(),
        s@.skip(i as int) == trimmed(s@.skip(start as int)),
{
    let mut i: usize = start;
    while i < s.len() && ascii_space(s[i])
        invariant
            start <= i <= s@.len(),
            trimmed(s@.skip(i as int)) == trimmed(s@.skip(start as int)),
        decreases s.len() - i,
    {
        assert(s@.skip(i as int).drop_first() =~= s@.skip(i + 1));
        i += 1;
    }
    i
}

/// Whether a document is uncompressed SVG.
pub fn detect_svg(data: &[u8]) -> (r: bool)
    ensures
        r == is_svg(data@),
{
    let n: usize = data.len();
    if n >= 2 && data[0] == 0x1F && data[1] == 0x8B {
        return false;
    }
    let len: usize = if n > SVG_WINDOW {
        SVG_WINDOW
    } else {
        n
    };
    let search = vstd::slice::slice_subrange(data, 0, len);
    assert(search@ =~= window(data@));
    let start: usize = if len >= 3 && search[0] == 0xEF && search[1] == 0xBB && search[2] == 0xBF {
        3
    } else {
        0
    };
    assert(search@.skip(start as int) =~= unmarked(window(data@)));
    let i: usize = skip_space(search, start);
    let rest = vstd::slice::slice_subrange(search, i, len);
    assert(rest@ =~= search@.skip(i as int));
    let tag: [u8; 4] = [0x3C, 0x73, 0x76, 0x67];
    let doctype: [u8; 13] = [
        0x3C,
        0x21,
        0x64,
        0x6F,
        0x63,
        0x74,
        0x79,
        0x70,
        0x65,
        0x20,
        0x73,
        0x76,
        0x67,
    ];
    let xml: [u8; 5] = [0x3C, 0x3F, 0x78, 0x6D, 0x6C];
    assert(tag@ =~= svg_tag());
    assert(doctype@ =~= svg_doctype());
    assert(xml@ =~= xml_declaration());
    starts_with_ascii_ci(rest, &tag) || starts_with_ascii_ci(rest, &doctype) || (
    starts_with_ascii_ci(rest, &xml) && contains_svg_tag(rest))
}

} // verus!
