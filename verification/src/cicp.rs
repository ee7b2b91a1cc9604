//! Coding-independent code points and the color properties they name.
use vstd::prelude::*;

verus! {

/// A CICP color description (ITU-T H.273).
#[derive(Clone, Copy, Debug, PartialEq, Eq, Hash, Structural)]
pub struct Cicp {
    /// Color primaries: 1 is BT.709/sRGB, 9 is BT.2020, 12 is Display P3.
    pub color_primaries: u8,
    /// Transfer characteristics: 13 is sRGB, 16 is PQ, 18 is HLG.
    pub transfer_characteristics: u8,
    /// Matrix coefficients: 0 is RGB.
    pub matrix_coefficients: u8,
    /// Whether samples use the full range.
    pub full_range: bool,
}

/// A transfer function.
#[derive(Clone, Copy, Debug, PartialEq, Eq, Hash, Structural)]
#[non_exhaustive]
pub enum TransferFunction {
    Linear,
    Srgb,
    Bt709,
    Pq,
    Hlg,
    Unknown,
}

/// A set of color primaries.
#[derive(Clone, Copy, Debug, PartialEq, Eq, Hash, Structural)]
#[non_exhaustive]
pub enum ColorPrimaries {
    Bt709,
    Bt2020,
    DisplayP3,
    Unknown,
}

/// Content light level of HDR content (CTA-861-H), in nits.
#[derive(Clone, Copy, Debug, PartialEq, Eq, Hash, Structural)]
pub struct ContentLightLevel {
    /// Peak luminance of any pixel.
    pub max_content_light_level: u16,
    /// Peak average luminance of any frame.
    pub max_frame_average_light_level: u16,
}

impl Cicp {
    /// The description with these code points.
    pub open spec fn of(primaries: u8, transfer: u8, matrix: u8, full_range: bool) -> Cicp {
        Cicp {
            color_primaries: primaries,
            transfer_characteristics: transfer,
            matrix_coefficients: matrix,
            full_range,
        }
    }

    /// A description from raw code points.
    pub fn new(
        color_primaries: u8,
        transfer_characteristics: u8,
        matrix_coefficients: u8,
        full_range: bool,
    ) -> (r: Self)
        ensures
            r == Cicp::of(
                color_primaries,
                transfer_characteristics,
                matrix_coefficients,
                full_range,
            ),
    {
        Cicp { color_primaries, transfer_characteristics, matrix_coefficients, full_range }
    }

    /// sRGB: BT.709 primaries, sRGB transfer, full range.
    #[allow(non_snake_case)]
    pub fn SRGB() -> (r: Self)
        ensures
            r == Cicp::of(1, 13, 0, true),
    {
        Cicp::new(1, 13, 0, true)
    }

    /// Display P3 with the sRGB transfer.
    #[allow(non_snake_case)]
    pub fn DISPLAY_P3() -> (r: Self)
        ensures
            r == Cicp::of(12, 13, 0, true),
    {
        Cicp::new(12, 13, 0, true)
    }

    /// BT.2100 PQ (HDR10).
    #[allow(non_snake_case)]
    pub fn BT2100_PQ() -> (r: Self)
        ensures
            r == Cicp::of(9, 16, 9, true),
    {
        Cicp::new(9, 16, 9, true)
    }

    /// The primaries that the code point names.
    pub fn color_primaries_enum(&self) -> (r: ColorPrimaries)
        ensures
            r == ColorPrimaries::of_code(self.color_primaries),
    {
        if self.color_primaries == 1 {
            ColorPrimaries::Bt709
        } else if self.color_primaries == 9 {
            ColorPrimaries::Bt2020
        } else if self.color_primaries == 12 {
            ColorPrimaries::DisplayP3
        } else {
            ColorPrimaries::Unknown
        }
    }

    /// The transfer function that the code point names.
    pub fn transfer_function_enum(&self) -> (r: TransferFunction)
        ensures
            r == TransferFunction::of_code(self.transfer_characteristics),
    {
        match self.transfer_characteristics {
            1 | 6 | 7 => TransferFunction::Bt709,
            8 => TransferFunction::Linear,
            13 => TransferFunction::Srgb,
            16 => TransferFunction::Pq,
            18 => TransferFunction::Hlg,
            _ => TransferFunction::Unknown,
        }
    }
}

impl ColorPrimaries {
    /// The primaries with this code point; unknown for all others.
    pub open spec fn of_code(code: u8) -> ColorPrimaries {
        if code == 1 {
            ColorPrimaries::Bt709
        } else if code == 9 {
            ColorPrimaries::Bt2020
        } else if code == 12 {
            ColorPrimaries::DisplayP3
        } else {
            ColorPrimaries::Unknown
        }
    }
}

impl TransferFunction {
    /// The transfer function with this code point; SMPTE 170M and 240M share
    /// the BT.709 curve, and other codes are unknown.
    pub open spec fn of_code(code: u8) -> TransferFunction {
        if code == 1 || code == 6 || code == 7 {
            TransferFunction::Bt709
        } else if code == 8 {
            TransferFunction::Linear
        } else if code == 13 {
            TransferFunction::Srgb
        } else if code == 16 {
            TransferFunction::Pq
        } else if code == 18 {
            TransferFunction::Hlg
        } else {
            TransferFunction::Unknown
        }
    }
}

/// The code points of H.273 that are known as primaries: 1 is BT.709, 9 BT.2020,
/// 12 Display P3; no other names any.
pub proof fn law_primaries_codes(code: u8)
    ensures
        ColorPrimaries::of_code(code) == ColorPrimaries::Bt709 <==> code == 1,
        ColorPrimaries::of_code(code) == ColorPrimaries::Bt2020 <==> code == 9,
        ColorPrimaries::of_code(code) == ColorPrimaries::DisplayP3 <==> code == 12,
        ColorPrimaries::of_code(code) == ColorPrimaries::Unknown <==> code != 1 && code != 9 && code
            != 12,
{
}

/// The code points of H.273 that are known as transfer functions: 1, 6 and 7 are
/// the BT.709 curve, 8 is linear, 13 sRGB, 16 PQ, 18 HLG; no other names any.
pub proof fn law_transfer_codes(code: u8)
    ensures
        TransferFunction::of_code(code) == TransferFunction::Bt709 <==> code == 1 || code == 6
            || code == 7,
        TransferFunction::of_code(code) == TransferFunction::Linear <==> code == 8,
        TransferFunction::of_code(code) == TransferFunction::Srgb <==> code == 13,
        TransferFunction::of_code(code) == TransferFunction::Pq <==> code == 16,
        TransferFunction::of_code(code) == TransferFunction::Hlg <==> code == 18,
        TransferFunction::of_code(code) == TransferFunction::Unknown <==> !(code == 1 || code == 6
            || code == 7 || code == 8 || code == 13 || code == 16 || code == 18),
{
}

/// A description holds the code points that it is made of, each in its place.
pub proof fn law_code_points_keep_their_place(primaries: u8, transfer: u8, matrix: u8, full: bool)
    ensures
        Cicp::of(primaries, transfer, matrix, full).color_primaries == primaries,
        Cicp::of(primaries, transfer, matrix, full).transfer_characteristics == transfer,
        Cicp::of(primaries, transfer, matrix, full).matrix_coefficients == matrix,
        Cicp::of(primaries, transfer, matrix, full).full_range == full,
{
}

} // verus!
