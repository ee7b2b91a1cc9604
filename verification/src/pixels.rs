//! How interleaved pixels are stored.
use crate::cicp::TransferFunction;
use vstd::prelude::*;

verus! {

/// Storage type of a channel.
#[derive(Clone, Copy, Debug, PartialEq, Eq, Hash, Structural)]
#[non_exhaustive]
pub enum ChannelType {
    U8,
    U16,
    F16,
    F32,
}

/// Number, meaning and order of channels.
#[derive(Clone, Copy, Debug, PartialEq, Eq, Hash, Structural)]
#[non_exhaustive]
pub enum ChannelLayout {
    Gray,
    GrayAlpha,
    Rgb,
    Rgba,
    Bgra,
    Oklab,
    OklabA,
    Cmyk,
}

/// What the alpha channel holds.
#[derive(Clone, Copy, Debug, PartialEq, Eq, Hash, Structural)]
#[non_exhaustive]
pub enum AlphaMode {
    /// Padding.
    Undefined,
    /// Alpha apart from color.
    Straight,
    /// Color multiplied by alpha.
    Premultiplied,
    /// Full opacity throughout.
    Opaque,
}

/// A pixel format of interleaved channels.
#[derive(Clone, Copy, Debug, PartialEq, Eq, Hash, Structural)]
pub struct PixelDescriptor {
    /// Storage type of a channel.
    pub channel_type: ChannelType,
    /// Number, meaning and order of channels.
    pub layout: ChannelLayout,
    /// What the alpha channel holds; nothing without one.
    pub alpha: Option<AlphaMode>,
    /// Transfer function.
    pub transfer: TransferFunction,
}

impl ChannelType {
    /// Size of a channel value.
    pub open spec fn size(self) -> nat {
        match self {
            ChannelType::U8 => 1,
            ChannelType::U16 | ChannelType::F16 => 2,
            ChannelType::F32 => 4,
        }
    }

    /// Size of a channel value in bytes.
    pub fn byte_size(self) -> (r: usize)
        ensures
            r == self.size(),
    {
        match self {
            ChannelType::U8 => 1,
            ChannelType::U16 | ChannelType::F16 => 2,
            ChannelType::F32 => 4,
        }
    }
}

impl ChannelLayout {
    /// Number of channels.
    pub open spec fn count(self) -> nat {
        match self {
            ChannelLayout::Gray => 1,
            ChannelLayout::GrayAlpha => 2,
            ChannelLayout::Rgb | ChannelLayout::Oklab => 3,
            _ => 4,
        }
    }

    /// Number of channels.
    pub fn channels(self) -> (r: usize)
        ensures
            r == self.count(),
    {
        match self {
            ChannelLayout::Gray => 1,
            ChannelLayout::GrayAlpha => 2,
            ChannelLayout::Rgb | ChannelLayout::Oklab => 3,
            _ => 4,
        }
    }
}

impl PixelDescriptor {
    /// Size of a pixel.
    pub open spec fn pixel_size(self) -> int {
        (self.layout.count() * self.channel_type.size()) as int
    }

    /// Size of a pixel in bytes.
    pub fn bytes_per_pixel(self) -> (r: usize)
        ensures
            r == self.pixel_size(),
            1 <= r <= 16,
    {
        let n: usize = self.layout.channels();
        let m: usize = self.channel_type.byte_size();
        assert(1 <= n * m <= 16) by (nonlinear_arith)
            requires
                1 <= n <= 4,
                1 <= m <= 4,
        ;
        n * m
    }

    /// Whether the alpha channel holds alpha.
    pub open spec fn carries_alpha(self) -> bool {
        self.alpha matches Some(a) && a != AlphaMode::Undefined
    }

    /// Whether the alpha channel holds alpha, rather than padding.
    pub fn has_alpha(self) -> (r: bool)
        ensures
            r == self.carries_alpha(),
    {
        match self.alpha {
            Some(AlphaMode::Straight) | Some(AlphaMode::Premultiplied) | Some(AlphaMode::Opaque) => {
                true
            },
            _ => false,
        }
    }

    /// 8-bit sRGB without alpha.
    #[allow(non_snake_case)]
    pub fn RGB8_SRGB() -> (r: Self)
        ensures
            r == (PixelDescriptor {
                channel_type: ChannelType::U8,
                layout: ChannelLayout::Rgb,
                alpha: None,
                transfer: TransferFunction::Srgb,
            }),
    {
        PixelDescriptor {
            channel_type: ChannelType::U8,
            layout: ChannelLayout::Rgb,
            alpha: None,
            transfer: TransferFunction::Srgb,
        }
    }

    /// 8-bit sRGB with straight alpha.
    #[allow(non_snake_case)]
    pub fn RGBA8_SRGB() -> (r: Self)
        ensures
            r == (PixelDescriptor {
                channel_type: ChannelType::U8,
                layout: ChannelLayout::Rgba,
                alpha: Some(AlphaMode::Straight),
                transfer: TransferFunction::Srgb,
            }),
    {
        PixelDescriptor {
            channel_type: ChannelType::U8,
            layout: ChannelLayout::Rgba,
            alpha: Some(AlphaMode::Straight),
            transfer: TransferFunction::Srgb,
        }
    }

    /// 8-bit sRGB with straight alpha, blue first.
    #[allow(non_snake_case)]
    pub fn BGRA8_SRGB() -> (r: Self)
        ensures
            r == (PixelDescriptor {
                channel_type: ChannelType::U8,
                layout: ChannelLayout::Bgra,
                alpha: Some(AlphaMode::Straight),
                transfer: TransferFunction::Srgb,
            }),
    {
        PixelDescriptor {
            channel_type: ChannelType::U8,
            layout: ChannelLayout::Bgra,
            alpha: Some(AlphaMode::Straight),
            transfer: TransferFunction::Srgb,
        }
    }
}

// ── Laws ────────────────────────────────────────────────────────────────────

/// A pixel takes the bytes of its channels: one to four of them, of one byte, of
/// two (16-bit integers and half floats) or of four (floats).
pub proof fn law_pixel_sizes(d: PixelDescriptor)
    ensures
        ({
            let n = d.pixel_size();
            let unit: int = if d.channel_type is U8 {
                1
            } else if d.channel_type is F32 {
                4
            } else {
                2
            };
            &&& d.layout is Gray ==> n == unit
            &&& d.layout is GrayAlpha ==> n == 2 * unit
            &&& d.layout is Rgb || d.layout is Oklab ==> n == 3 * unit
            &&& d.layout is Rgba || d.layout is Bgra || d.layout is OklabA || d.layout is Cmyk ==> n
                == 4 * unit
        }),
{
}

/// An alpha layout has one channel more than the same layout without, and the
/// order of channels does not change their number.
pub proof fn law_alpha_is_a_channel()
    ensures
        ChannelLayout::GrayAlpha.count() == ChannelLayout::Gray.count() + 1,
        ChannelLayout::Rgba.count() == ChannelLayout::Rgb.count() + 1,
        ChannelLayout::OklabA.count() == ChannelLayout::Oklab.count() + 1,
        ChannelLayout::Bgra.count() == ChannelLayout::Rgba.count(),
{
}

/// Only straight, premultiplied and opaque alpha is alpha: padding is not, and
/// without a mode there is none.
pub proof fn law_padding_is_no_alpha(d: PixelDescriptor)
    ensures
        d.carries_alpha() <==> d.alpha == Some(AlphaMode::Straight) || d.alpha == Some(
            AlphaMode::Premultiplied,
        ) || d.alpha == Some(AlphaMode::Opaque),
{
}

} // verus!
