//! Fixed-width integers in either byte order.
use vstd::prelude::*;

verus! {

/// Byte order of a TIFF stream (`II` / `MM`).
#[derive(Debug, Clone, Copy, PartialEq, Eq, Structural)]
pub enum ByteOrder {
    /// Little-endian (`II`).
    Little,
    /// Big-endian (`MM`).
    Big,
}

/// The 16-bit value whose bytes are `a, b` in stream order.
pub open spec fn value16(a: u8, b: u8, order: ByteOrder) -> u16 {
    match order {
        ByteOrder::Big => (a * 256 + b) as u16,
        ByteOrder::Little => (b * 256 + a) as u16,
    }
}

/// The 32-bit value whose bytes are `a, b, c, d` in stream order.
pub open spec fn value32(a: u8, b: u8, c: u8, d: u8, order: ByteOrder) -> u32 {
    match order {
        ByteOrder::Big => (a * 0x100_0000 + b * 0x1_0000 + c * 0x100 + d) as u32,
        ByteOrder::Little => (d * 0x100_0000 + c * 0x1_0000 + b * 0x100 + a) as u32,
    }
}

/// The 16-bit value at offset `o` of `s`.
#[verifier::opaque]
pub open spec fn u16_at(s: Seq<u8>, o: int, order: ByteOrder) -> u16 {
    value16(s[o], s[o + 1], order)
}

/// The 32-bit value at offset `o` of `s`.
#[verifier::opaque]
pub open spec fn u32_at(s: Seq<u8>, o: int, order: ByteOrder) -> u32 {
    value32(s[o], s[o + 1], s[o + 2], s[o + 3], order)
}

/// The two bytes of `v` in stream order.
#[verifier::opaque]
pub open spec fn bytes16(v: u16, order: ByteOrder) -> Seq<u8> {
    match order {
        ByteOrder::Big => seq![(v / 256) as u8, (v % 256) as u8],
        ByteOrder::Little => seq![(v % 256) as u8, (v / 256) as u8],
    }
}

/// The four bytes of `v` in stream order.
#[verifier::opaque]
pub open spec fn bytes32(v: u32, order: ByteOrder) -> Seq<u8> {
    match order {
        ByteOrder::Big => seq![
            (v / 0x100_0000) as u8,
            (v / 0x1_0000 % 256) as u8,
            (v / 256 % 256) as u8,
            (v % 256) as u8,
        ],
        ByteOrder::Little => seq![
            (v % 256) as u8,
            (v / 256 % 256) as u8,
            (v / 0x1_0000 % 256) as u8,
            (v / 0x100_0000) as u8,
        ],
    }
}

/// Reading back what [`bytes16`] wrote gives the value.
pub proof fn lemma_bytes16_reads_back(v: u16, order: ByteOrder)
    ensures
        bytes16(v, order).len() == 2,
        u16_at(bytes16(v, order), 0, order) == v,
{
    reveal(bytes16);
    reveal(u16_at);
}

/// A 16-bit value takes two bytes.
pub broadcast proof fn lemma_bytes16_len(v: u16, order: ByteOrder)
    ensures
        #[trigger] bytes16(v, order).len() == 2,
{
    reveal(bytes16);
}

/// A 32-bit value takes four bytes.
pub broadcast proof fn lemma_bytes32_len(v: u32, order: ByteOrder)
    ensures
        #[trigger] bytes32(v, order).len() == 4,
{
    reveal(bytes32);
}

/// Reading back what [`bytes32`] wrote gives the value.
pub proof fn lemma_bytes32_reads_back(v: u32, order: ByteOrder)
    ensures
        bytes32(v, order).len() == 4,
        u32_at(bytes32(v, order), 0, order) == v,
{
    reveal(bytes32);
    reveal(u32_at);
    assert(v / 256 % 256 + (v / 0x1_0000) * 256 == v / 256) by {
        assert(v / 256 / 256 == v / 0x1_0000);
    }
}

/// Read a 16-bit value, or `None` past the end.
pub fn rd16(d: &[u8], o: usize, order: ByteOrder) -> (r: Option<u16>)
    ensures
        r == (if o + 2 <= d@.len() { Some(u16_at(d@, o as int, order)) } else { None::<u16> }),
{
    proof {
        reveal(u16_at);
    }
    if d.len() < 2 || o > d.len() - 2 {
        return None;
    }
    let a: u16 = d[o] as u16;
    let b: u16 = d[o + 1] as u16;
    match order {
        ByteOrder::Big => Some(a * 256 + b),
        ByteOrder::Little => Some(b * 256 + a),
    }
}

/// Read a 32-bit value, or `None` past the end.
pub fn rd32(d: &[u8], o: usize, order: ByteOrder) -> (r: Option<u32>)
    ensures
        r == (if o + 4 <= d@.len() { Some(u32_at(d@, o as int, order)) } else { None::<u32> }),
{
    proof {
        reveal(u32_at);
    }
    if d.len() < 4 || o > d.len() - 4 {
        return None;
    }
    let a: u32 = d[o] as u32;
    let b: u32 = d[o + 1] as u32;
    let c: u32 = d[o + 2] as u32;
    let e: u32 = d[o + 3] as u32;
    match order {
        ByteOrder::Big => Some(a * 0x100_0000 + b * 0x1_0000 + c * 0x100 + e),
        ByteOrder::Little => Some(e * 0x100_0000 + c * 0x1_0000 + b * 0x100 + a),
    }
}

/// Append a 16-bit value.
pub fn put16(out: &mut Vec<u8>, v: u16, order: ByteOrder)
    ensures
        final(out)@ == old(out)@ + bytes16(v, order),
{
    proof {
        reveal(bytes16);
    }
    match order {
        ByteOrder::Big => {
            out.push((v / 256) as u8);
            out.push((v % 256) as u8);
        },
        ByteOrder::Little => {
            out.push((v % 256) as u8);
            out.push((v / 256) as u8);
        },
    }
}

/// Append a 32-bit value.
pub fn put32(out: &mut Vec<u8>, v: u32, order: ByteOrder)
    ensures
        final(out)@ == old(out)@ + bytes32(v, order),
{
    proof {
        reveal(bytes32);
    }
    match order {
        ByteOrder::Big => {
            out.push((v / 0x100_0000) as u8);
            out.push((v / 0x1_0000 % 256) as u8);
            out.push((v / 256 % 256) as u8);
            out.push((v % 256) as u8);
        },
        ByteOrder::Little => {
            out.push((v % 256) as u8);
            out.push((v / 256 % 256) as u8);
            out.push((v / 0x1_0000 % 256) as u8);
            out.push((v / 0x100_0000) as u8);
        },
    }
}

} // verus!
