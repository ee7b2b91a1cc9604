//! What an ICC profile says of its color, by way of `zenpixels`.
use crate::cicp::Cicp;
use crate::exif::codec::{rd32, u32_at, ByteOrder};
use vstd::prelude::*;

verus! {

/// The data color space that a profile's header declares.
#[derive(Clone, Copy, Debug, PartialEq, Eq, Hash, Structural)]
pub enum ProfileSpace {
    Rgb,
    Gray,
    Cmyk,
}

/// The color space signature of a profile: bytes 16 to 19 of its header.
pub open spec fn profile_space(icc: Seq<u8>) -> Option<ProfileSpace> {
    if icc.len() < 20 {
        None
    } else if icc.subrange(16, 20) =~= seq![0x52u8, 0x47, 0x42, 0x20] {
        Some(ProfileSpace::Rgb)
    } else if icc.subrange(16, 20) =~= seq![0x47u8, 0x52, 0x41, 0x59] {
        Some(ProfileSpace::Gray)
    } else if icc.subrange(16, 20) =~= seq![0x43u8, 0x4D, 0x59, 0x4B] {
        Some(ProfileSpace::Cmyk)
    } else {
        None
    }
}

/// The signature of a `cicp` tag and of its data.
pub open spec fn cicp_signature() -> Seq<u8> {
    seq![0x63u8, 0x69, 0x63, 0x70]
}

/// Whether `data` has a header and a tag count, and the signature of a profile.
pub open spec fn is_profile(data: Seq<u8>) -> bool {
    data.len() >= 132 && data.subrange(36, 40) =~= seq![0x61u8, 0x63, 0x73, 0x70]
}

/// The place of the first of `n` table entries at `at` that carries the `cicp`
/// signature; the table ends with the data.
pub open spec fn cicp_entry_from(data: Seq<u8>, at: int, n: nat) -> Option<int>
    decreases n,
{
    if n == 0 || at + 12 > data.len() {
        None
    } else if data.subrange(at, at + 4) =~= cicp_signature() {
        Some(at)
    } else {
        cicp_entry_from(data, at + 12, (n - 1) as nat)
    }
}

/// The place of a profile's first `cicp` entry, among the first 200 of its tag
/// table.
pub open spec fn cicp_entry(icc: Seq<u8>) -> Option<int> {
    if is_profile(icc) {
        let count = u32_at(icc, 128, ByteOrder::Big) as nat;
        cicp_entry_from(
            icc,
            132,
            if count <= 200 {
                count
            } else {
                200
            },
        )
    } else {
        None
    }
}

/// The code points in the data of a `cicp` tag at `off`: the signature, four
/// reserved bytes, and the code points.
pub open spec fn cicp_data(icc: Seq<u8>, off: int) -> Option<Cicp> {
    if off + 12 <= icc.len() && icc.subrange(off, off + 4) =~= cicp_signature() {
        Some(Cicp::of(icc[off + 8], icc[off + 9], icc[off + 10], icc[off + 11] != 0))
    } else {
        None
    }
}

/// The code points of a profile's `cicp` tag: what the first such entry leads
/// to, if its size is at least that of the data.
pub open spec fn icc_tagged_cicp(icc: Seq<u8>) -> Option<Cicp> {
    match cicp_entry(icc) {
        Some(at) => if u32_at(icc, at + 8, ByteOrder::Big) >= 12 {
            cicp_data(icc, u32_at(icc, at + 4, ByteOrder::Big) as int)
        } else {
            None
        },
        None => None,
    }
}

/// Whether the end of the `cicp` data that a profile's first such entry leads
/// to is a machine size.
pub open spec fn cicp_offset_fits(icc: Seq<u8>) -> bool {
    cicp_entry(icc) matches Some(at) ==> u32_at(icc, at + 4, ByteOrder::Big) + 12 <= usize::MAX
}

/// The code points of the profile that `zenpixels::icc::identify_common`
/// recognizes.
pub uninterp spec fn icc_identified_cicp(icc: Seq<u8>) -> Option<Cicp>;

/// The color space that a profile declares, through
/// `zenpixels::icc::profile_color_space`: it reads the four-byte signature at
/// offset 16 and knows `RGB `, `GRAY` and `CMYK`.
#[verifier::external_body]
pub(crate) fn profile_color_space(icc: &[u8]) -> (r: Option<ProfileSpace>)
    ensures
        r == profile_space(icc@),
{
    match zenpixels::icc::profile_color_space(icc) {
        Some(zenpixels::ColorModel::Rgb) => Some(ProfileSpace::Rgb),
        Some(zenpixels::ColorModel::Gray) => Some(ProfileSpace::Gray),
        Some(zenpixels::ColorModel::Cmyk) => Some(ProfileSpace::Cmyk),
        _ => None,
    }
}

/// The code points of a profile's `cicp` tag, through
/// `zenpixels::icc::extract_cicp`: it looks for the first entry with the `cicp`
/// signature among the first 200 of the tag table, and reads the data that the
/// entry leads to. The end of that data must be a machine size: the function
/// computes it without a check.
#[verifier::external_body]
pub(crate) fn tagged_cicp(icc: &[u8]) -> (r: Option<Cicp>)
    requires
        cicp_offset_fits(icc@),
    ensures
        r == icc_tagged_cicp(icc@),
{
    match zenpixels::icc::extract_cicp(icc) {
        Some(c) => Some(
            Cicp {
                color_primaries: c.color_primaries,
                transfer_characteristics: c.transfer_characteristics,
                matrix_coefficients: c.matrix_coefficients,
                full_range: c.full_range,
            },
        ),
        None => None,
    }
}

/// The place of a profile's first `cicp` entry.
fn find_cicp_entry(icc: &[u8]) -> (r: Option<usize>)
    ensures
        cicp_entry(icc@) == (match r {
            Some(at) => Some(at as int),
            None => None,
        }),
        r matches Some(at) ==> at + 12 <= icc@.len(),
{
    if icc.len() < 132 || !(icc[36] == 0x61 && icc[37] == 0x63 && icc[38] == 0x73 && icc[39]
        == 0x70) {
        assert(is_profile(icc@) ==> icc@[36] == icc@.subrange(36, 40)[0] && icc@[37]
            == icc@.subrange(36, 40)[1] && icc@[38] == icc@.subrange(36, 40)[2] && icc@[39]
            == icc@.subrange(36, 40)[3]);
        return None;
    }
    let mut left: u32 = match rd32(icc, 128, ByteOrder::Big) {
        Some(count) if count <= 200 => count,
        _ => 200,
    };
    let mut at: usize = 132;
    while left > 0 && icc.len() - at >= 12
        invariant
            132 <= at <= icc@.len(),
            cicp_entry(icc@) == cicp_entry_from(icc@, at as int, left as nat),
        decreases left,
    {
        if icc[at] == 0x63 && icc[at + 1] == 0x69 && icc[at + 2] == 0x63 && icc[at + 3] == 0x70 {
            assert(icc@.subrange(at as int, at + 4) =~= cicp_signature());
            return Some(at);
        }
        proof {
            let s = icc@.subrange(at as int, at + 4);
            assert(s[0] == icc@[at as int] && s[1] == icc@[at + 1] && s[2] == icc@[at + 2] && s[3]
                == icc@[at + 3]);
        }
        at += 12;
        left -= 1;
    }
    None
}

/// Whether the end of a profile's `cicp` data is a machine size. Where it is
/// not, the data is not in the profile.
pub(crate) fn offset_fits(icc: &[u8]) -> (r: bool)
    ensures
        r == cicp_offset_fits(icc@),
        !r ==> icc_tagged_cicp(icc@) is None,
{
    let n: usize = icc.len();
    assert(icc@.len() == n);
    match find_cicp_entry(icc) {
        Some(at) => match rd32(icc, at + 4, ByteOrder::Big) {
            Some(off) => off as u64 <= (usize::MAX - 12) as u64,
            None => true,
        },
        None => true,
    }
}

/// The code points of a well-known profile, through
/// `zenpixels::icc::identify_common` and the identification's `to_cicp`. The
/// result is a function of the bytes, and describes full-range RGB. Which
/// profiles are known is not stated: it is a table of hashes.
#[verifier::external_body]
pub(crate) fn identified_cicp(icc: &[u8]) -> (r: Option<Cicp>)
    ensures
        r == icc_identified_cicp(icc@),
        r matches Some(c) ==> c.matrix_coefficients == 0 && c.full_range,
{
    match zenpixels::icc::identify_common(icc) {
        Some(id) => match id.to_cicp() {
            Some(c) => Some(
                Cicp {
                    color_primaries: c.color_primaries,
                    transfer_characteristics: c.transfer_characteristics,
                    matrix_coefficients: c.matrix_coefficients,
                    full_range: c.full_range,
                },
            ),
            None => None,
        },
        None => None,
    }
}

/// Whether a profile is a well-known sRGB profile, through
/// `zenpixels::icc::is_common_srgb`: whether the profile is recognized with
/// BT.709 primaries and the sRGB transfer, which are the primaries and transfer
/// with code points 1 and 13.
#[verifier::external_body]
pub(crate) fn is_common_srgb(icc: &[u8]) -> (r: bool)
    ensures
        r == (icc_identified_cicp(icc@) == Some(Cicp::of(1, 13, 0, true))),
{
    zenpixels::icc::is_common_srgb(icc)
}

} // verus!
