//! Recognizing a format by its first bytes.
use crate::exif::codec::{rd16, rd32, u16_at, u32_at, ByteOrder};
use vstd::prelude::*;

verus! {

// ── Bytes ───────────────────────────────────────────────────────────────────

/// Whether `p` stands at offset `off` of `d`.
pub open spec fn has_at(d: Seq<u8>, off: int, p: Seq<u8>) -> bool {
    off + p.len() <= d.len() && d.subrange(off, off + p.len()) =~= p
}

/// An ASCII letter in lower case; any other byte as it is.
pub open spec fn lower(b: u8) -> u8 {
    if 0x41 <= b <= 0x5A {
        (b + 0x20) as u8
    } else {
        b
    }
}

/// Whether `s` starts with `p`, whatever the case of ASCII letters.
pub open spec fn starts_ci(s: Seq<u8>, p: Seq<u8>) -> bool {
    p.len() <= s.len() && forall|i: int| 0 <= i < p.len() ==> lower(#[trigger] s[i]) == lower(p[i])
}

/// Whether `p` stands at offset `off` of `d`.
pub fn bytes_at(d: &[u8], off: usize, p: &[u8]) -> (r: bool)
    ensures
        r == has_at(d@, off as int, p@),
{
    let n: usize = p.len();
    let m: usize = d.len();
    if m < n || m - n < off {
        return false;
    }
    let mut i: usize = 0;
    while i < n
        invariant
            i <= n == p@.len(),
            off + n <= m == d@.len(),
            forall|j: int| 0 <= j < i ==> d@[off + j] == p@[j],
        decreases n - i,
    {
        if d[off + i] != p[i] {
            assert(d@.subrange(off as int, off + n)[i as int] != p@[i as int]);
            return false;
        }
        i += 1;
    }
    true
}

/// An ASCII letter in lower case; any other byte as it is.
pub fn to_lower(b: u8) -> (r: u8)
    ensures
        r == lower(b),
{
    if 0x41 <= b && b <= 0x5A {
        b + 0x20
    } else {
        b
    }
}

/// Whether `data` starts with `prefix`, whatever the case of ASCII letters.
pub fn starts_with_ascii_ci(data: &[u8], prefix: &[u8]) -> (r: bool)
    ensures
        r == starts_ci(data@, prefix@),
{
    if data.len() < prefix.len() {
        return false;
    }
    let mut i: usize = 0;
    while i < prefix.len()
        invariant
            i <= prefix@.len() <= data@.len(),
            forall|j: int| 0 <= j < i ==> lower(#[trigger] data@[j]) == lower(prefix@[j]),
        decreases prefix.len() - i,
    {
        if to_lower(data[i]) != to_lower(prefix[i]) {
            return false;
        }
        i += 1;
    }
    true
}

// ── ISO base media files ────────────────────────────────────────────────────

/// The brands of AVIF files: `avif`, `avis`.
pub open spec fn avif_brands() -> Seq<u32> {
    seq![0x61766966u32, 0x61766973]
}

/// The brands of HEIC files: `heic`, `heix`, `hevc`, `hevx`, `heim`, `heis`,
/// `hevm`, `hevs`.
pub open spec fn heic_brands() -> Seq<u32> {
    seq![
        0x68656963u32,
        0x68656978,
        0x68657663,
        0x68657678,
        0x6865696D,
        0x68656973,
        0x6865766D,
        0x68657673,
    ]
}

/// The four-byte code at offset `o`.
pub open spec fn code_at(d: Seq<u8>, o: int) -> u32 {
    u32_at(d, o, ByteOrder::Big)
}

/// Whether a file-type box (`ftyp`) comes first.
pub open spec fn opens_with_ftyp(d: Seq<u8>) -> bool {
    d.len() >= 12 && code_at(d, 4) == 0x66747970
}

/// Whether the major brand leaves the kind of image open: `mif1` or `msf1`.
pub open spec fn is_generic_brand(brand: u32) -> bool {
    brand == 0x6D696631 || brand == 0x6D736631
}

/// Where the file-type box ends, as far as there is data. A size of zero
/// reaches to the end; a size of one stands for a 64-bit size, which is none if
/// it is not all there.
pub open spec fn ftyp_end(d: Seq<u8>) -> int {
    let size = code_at(d, 0);
    let end = if size == 0 {
        d.len() as int
    } else if size != 1 {
        size as int
    } else if d.len() < 16 {
        0
    } else {
        code_at(d, 8) * 0x1_0000_0000 + code_at(d, 12)
    };
    if end < d.len() {
        end
    } else {
        d.len() as int
    }
}

/// Where the compatible brands start.
pub open spec fn brands_start(d: Seq<u8>) -> int {
    if code_at(d, 0) == 1 {
        24
    } else {
        16
    }
}

/// Whether one of `brands` is among the compatible brands.
pub open spec fn lists_brand(d: Seq<u8>, brands: Seq<u32>) -> bool {
    exists|k: int|
        0 <= k && brands_start(d) + 4 * k + 4 <= ftyp_end(d) && brands.contains(
            #[trigger] code_at(d, brands_start(d) + 4 * k),
        )
}

/// Whether the file is of one of `brands`: its major brand is among them, or it
/// is generic and they are among the compatible ones.
pub open spec fn is_of_brand(d: Seq<u8>, brands: Seq<u32>) -> bool {
    opens_with_ftyp(d) && (brands.contains(code_at(d, 8)) || (is_generic_brand(code_at(d, 8))
        && lists_brand(d, brands)))
}

/// Whether `x` is among `items`.
fn among(items: &[u32], x: u32) -> (r: bool)
    ensures
        r == items@.contains(x),
{
    let mut i: usize = 0;
    while i < items.len()
        invariant
            i <= items@.len(),
            forall|j: int| 0 <= j < i ==> items@[j] != x,
        decreases items.len() - i,
    {
        if items[i] == x {
            return true;
        }
        i += 1;
    }
    false
}

/// The four-byte code at offset `o`.
fn read_code(data: &[u8], o: usize) -> (r: u32)
    requires
        o + 4 <= data@.len(),
    ensures
        r == code_at(data@, o as int),
{
    match rd32(data, o, ByteOrder::Big) {
        Some(v) => v,
        None => 0,
    }
}

/// Whether a file-type box comes first.
fn has_ftyp(data: &[u8]) -> (r: bool)
    ensures
        r == opens_with_ftyp(data@),
{
    data.len() >= 12 && read_code(data, 4) == 0x66747970
}

/// Whether one of the brands `target` is among the compatible brands.
fn scan_compat_brands(data: &[u8], target: &[u32]) -> (r: bool)
    requires
        data@.len() >= 12,
    ensures
        r == lists_brand(data@, target@),
{
    let size: u32 = read_code(data, 0);
    let n: usize = data.len();
    let end: usize = if size == 0 {
        n
    } else if size == 1 {
        if n < 16 {
            return false;
        }
        let hi: u32 = read_code(data, 8);
        let lo: u32 = read_code(data, 12);
        let extended: u64 = hi as u64 * 0x1_0000_0000 + lo as u64;
        if extended < n as u64 {
            extended as usize
        } else {
            n
        }
    } else if (size as u64) < n as u64 {
        size as usize
    } else {
        n
    };
    let start: usize = if size == 1 {
        24
    } else {
        16
    };
    let mut offset: usize = start;
    let ghost mut k: int = 0;
    while offset <= end && end - offset >= 4
        invariant
            0 <= k,
            offset == start + 4 * k,
            start == brands_start(data@),
            end == ftyp_end(data@),
            end <= data@.len(),
            forall|j: int|
                0 <= j < k ==> !target@.contains(#[trigger] code_at(data@, start + 4 * j)),
        decreases end + 4 - offset,
    {
        if among(target, read_code(data, offset)) {
            assert(target@.contains(code_at(data@, brands_start(data@) + 4 * k)));
            return true;
        }
        if end - offset < 8 {
            assert forall|j: int|
                0 <= j && brands_start(data@) + 4 * j + 4 <= ftyp_end(
                    data@,
                ) implies !target@.contains(
                #[trigger] code_at(data@, brands_start(data@) + 4 * j),
            ) by {
                assert(j <= k);
            }
            return false;
        }
        offset += 4;
        proof {
            k = k + 1;
        }
    }
    false
}

/// Whether a file is of one of `brands`.
fn is_branded(data: &[u8], brands: &[u32]) -> (r: bool)
    ensures
        r == is_of_brand(data@, brands@),
{
    if !has_ftyp(data) {
        return false;
    }
    let major: u32 = read_code(data, 8);
    if among(brands, major) {
        return true;
    }
    if major == 0x6D696631 || major == 0x6D736631 {
        scan_compat_brands(data, brands)
    } else {
        false
    }
}

/// Whether a file is AVIF.
pub fn detect_avif(data: &[u8]) -> (r: bool)
    ensures
        r == is_of_brand(data@, avif_brands()),
{
    let brands: [u32; 2] = [0x61766966, 0x61766973];
    assert(brands@ =~= avif_brands());
    is_branded(data, &brands)
}

/// Whether a file is HEIC.
pub fn detect_heic(data: &[u8]) -> (r: bool)
    ensures
        r == is_of_brand(data@, heic_brands()),
{
    let brands: [u32; 8] = [
        0x68656963,
        0x68656978,
        0x68657663,
        0x68657678,
        0x6865696D,
        0x68656973,
        0x6865766D,
        0x68657673,
    ];
    assert(brands@ =~= heic_brands());
    is_branded(data, &brands)
}

} // verus!
