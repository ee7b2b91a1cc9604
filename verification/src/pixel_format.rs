//! Pixel formats in a processing pipeline.
use crate::cicp::TransferFunction;
use crate::pixels::{AlphaMode, ChannelLayout, ChannelType, PixelDescriptor};
use vstd::prelude::*;

verus! {

/// What the color channels stand for.
#[derive(Clone, Copy, Debug, PartialEq, Eq, Hash, Structural)]
#[non_exhaustive]
pub enum ColorModel {
    Gray,
    Rgb,
    YCbCr,
    Oklab,
    Xyz,
    Lab,
}

/// Order of RGB channels; without meaning for other models.
#[derive(Clone, Copy, Debug, PartialEq, Eq, Hash, Structural)]
#[non_exhaustive]
pub enum ByteOrder {
    /// Red first.
    Native,
    /// Blue first.
    Bgr,
}

/// Chroma subsampling.
#[derive(Clone, Copy, Debug, PartialEq, Eq, Hash, Structural)]
#[non_exhaustive]
pub enum Subsampling {
    /// 4:4:4, full resolution.
    S444,
    /// 4:2:2, half horizontally.
    S422,
    /// 4:2:0, half both ways.
    S420,
    /// 4:1:1, a quarter horizontally.
    S411,
}

/// Which matrix makes luma and chroma of RGB.
#[derive(Clone, Copy, Debug, PartialEq, Eq, Hash, Structural)]
#[non_exhaustive]
pub enum YuvMatrix {
    /// None.
    Identity,
    /// JPEG, WebP, SD video.
    Bt601,
    /// AVIF, HEIC, HD video.
    Bt709,
    /// UHD video.
    Bt2020,
}

/// A pixel format, with what a pipeline needs beyond a [`PixelDescriptor`].
#[derive(Clone, Copy, Debug, PartialEq, Eq, Hash, Structural)]
pub struct PixelFormat {
    /// Storage type of a channel.
    pub channel_type: ChannelType,
    /// What the color channels stand for.
    pub color_model: ColorModel,
    /// What the alpha channel holds; nothing without one.
    pub alpha: Option<AlphaMode>,
    /// Transfer function.
    pub transfer: TransferFunction,
    /// Order of RGB channels.
    pub byte_order: ByteOrder,
    /// Chroma subsampling.
    pub subsampling: Subsampling,
    /// YCbCr matrix.
    pub yuv_matrix: YuvMatrix,
    /// Whether channels are stored apart.
    pub planar: bool,
}

impl ColorModel {
    /// Number of color channels.
    pub open spec fn colors(self) -> int {
        if self == ColorModel::Gray {
            1
        } else {
            3
        }
    }

    /// Number of color channels, without alpha.
    pub fn color_channels(self) -> (r: u8)
        ensures
            r == self.colors(),
    {
        match self {
            ColorModel::Gray => 1,
            _ => 3,
        }
    }
}

impl Subsampling {
    /// By what factor chroma is reduced horizontally.
    pub fn h_factor(self) -> (r: u8)
        ensures
            r == (match self {
                Subsampling::S444 => 1int,
                Subsampling::S422 | Subsampling::S420 => 2,
                Subsampling::S411 => 4,
            }),
    {
        match self {
            Subsampling::S444 => 1,
            Subsampling::S422 | Subsampling::S420 => 2,
            Subsampling::S411 => 4,
        }
    }

    /// By what factor chroma is reduced vertically.
    pub fn v_factor(self) -> (r: u8)
        ensures
            r == (if self == Subsampling::S420 {
                2int
            } else {
                1
            }),
    {
        match self {
            Subsampling::S420 => 2,
            _ => 1,
        }
    }

    /// Whether chroma is reduced at all.
    pub fn is_subsampled(self) -> (r: bool)
        ensures
            r == (self != Subsampling::S444),
    {
        match self {
            Subsampling::S444 => false,
            _ => true,
        }
    }
}

impl Default for ByteOrder {
    fn default() -> (r: Self)
        ensures
            r == ByteOrder::Native,
    {
        ByteOrder::Native
    }
}

impl Default for Subsampling {
    fn default() -> (r: Self)
        ensures
            r == Subsampling::S444,
    {
        Subsampling::S444
    }
}

impl Default for YuvMatrix {
    fn default() -> (r: Self)
        ensures
            r == YuvMatrix::Identity,
    {
        YuvMatrix::Identity
    }
}

impl YuvMatrix {
    /// The matrix with a CICP code point.
    pub open spec fn of_code(code: u8) -> Option<YuvMatrix> {
        if code == 0 {
            Some(YuvMatrix::Identity)
        } else if code == 1 {
            Some(YuvMatrix::Bt709)
        } else if code == 5 || code == 6 {
            Some(YuvMatrix::Bt601)
        } else if code == 9 {
            Some(YuvMatrix::Bt2020)
        } else {
            None
        }
    }

    /// The weights of red, green and blue in luma, in ten-thousandths.
    pub open spec fn weights(self) -> Seq<u16> {
        match self {
            YuvMatrix::Identity => seq![10000u16, 0, 0],
            YuvMatrix::Bt601 => seq![2990u16, 5870, 1140],
            YuvMatrix::Bt709 => seq![2126u16, 7152, 722],
            YuvMatrix::Bt2020 => seq![2627u16, 6780, 593],
        }
    }

    /// The weights of red, green and blue in luma, in ten-thousandths. They add
    /// up to one.
    pub fn luma_weights(self) -> (r: [u16; 3])
        ensures
            r@ == self.weights(),
            r@[0] + r@[1] + r@[2] == 10000,
    {
        match self {
            YuvMatrix::Identity => [10000, 0, 0],
            YuvMatrix::Bt601 => [2990, 5870, 1140],
            YuvMatrix::Bt709 => [2126, 7152, 722],
            YuvMatrix::Bt2020 => [2627, 6780, 593],
        }
    }

    /// The matrix with a CICP code point; none if it is not known.
    pub fn from_cicp(mc: u8) -> (r: Option<Self>)
        ensures
            r == YuvMatrix::of_code(mc),
    {
        match mc {
            0 => Some(YuvMatrix::Identity),
            5 | 6 => Some(YuvMatrix::Bt601),
            1 => Some(YuvMatrix::Bt709),
            9 => Some(YuvMatrix::Bt2020),
            _ => None,
        }
    }
}

impl PixelFormat {
    /// 8-bit sRGB with straight alpha.
    #[allow(non_snake_case)]
    pub fn SRGB_RGBA_U8() -> (r: Self)
        ensures
            r == (PixelFormat {
                channel_type: ChannelType::U8,
                color_model: ColorModel::Rgb,
                alpha: Some(AlphaMode::Straight),
                transfer: TransferFunction::Srgb,
                byte_order: ByteOrder::Native,
                subsampling: Subsampling::S444,
                yuv_matrix: YuvMatrix::Identity,
                planar: false,
            }),
    {
        PixelFormat {
            channel_type: ChannelType::U8,
            color_model: ColorModel::Rgb,
            alpha: Some(AlphaMode::Straight),
            transfer: TransferFunction::Srgb,
            byte_order: ByteOrder::Native,
            subsampling: Subsampling::S444,
            yuv_matrix: YuvMatrix::Identity,
            planar: false,
        }
    }

    /// 8-bit sRGB.
    #[allow(non_snake_case)]
    pub fn SRGB_RGB_U8() -> (r: Self)
        ensures
            r == (PixelFormat {
                channel_type: ChannelType::U8,
                color_model: ColorModel::Rgb,
                alpha: None,
                transfer: TransferFunction::Srgb,
                byte_order: ByteOrder::Native,
                subsampling: Subsampling::S444,
                yuv_matrix: YuvMatrix::Identity,
                planar: false,
            }),
    {
        PixelFormat {
            channel_type: ChannelType::U8,
            color_model: ColorModel::Rgb,
            alpha: None,
            transfer: TransferFunction::Srgb,
            byte_order: ByteOrder::Native,
            subsampling: Subsampling::S444,
            yuv_matrix: YuvMatrix::Identity,
            planar: false,
        }
    }

    /// Linear RGB with straight alpha.
    #[allow(non_snake_case)]
    pub fn LINEAR_RGBA_F32() -> (r: Self)
        ensures
            r == (PixelFormat {
                channel_type: ChannelType::F32,
                color_model: ColorModel::Rgb,
                alpha: Some(AlphaMode::Straight),
                transfer: TransferFunction::Linear,
                byte_order: ByteOrder::Native,
                subsampling: Subsampling::S444,
                yuv_matrix: YuvMatrix::Identity,
                planar: false,
            }),
    {
        PixelFormat {
            channel_type: ChannelType::F32,
            color_model: ColorModel::Rgb,
            alpha: Some(AlphaMode::Straight),
            transfer: TransferFunction::Linear,
            byte_order: ByteOrder::Native,
            subsampling: Subsampling::S444,
            yuv_matrix: YuvMatrix::Identity,
            planar: false,
        }
    }

    /// Linear RGB.
    #[allow(non_snake_case)]
    pub fn LINEAR_RGB_F32() -> (r: Self)
        ensures
            r == (PixelFormat {
                channel_type: ChannelType::F32,
                color_model: ColorModel::Rgb,
                alpha: None,
                transfer: TransferFunction::Linear,
                byte_order: ByteOrder::Native,
                subsampling: Subsampling::S444,
                yuv_matrix: YuvMatrix::Identity,
                planar: false,
            }),
    {
        PixelFormat {
            channel_type: ChannelType::F32,
            color_model: ColorModel::Rgb,
            alpha: None,
            transfer: TransferFunction::Linear,
            byte_order: ByteOrder::Native,
            subsampling: Subsampling::S444,
            yuv_matrix: YuvMatrix::Identity,
            planar: false,
        }
    }

    /// 8-bit sRGB gray.
    #[allow(non_snake_case)]
    pub fn GRAY_U8() -> (r: Self)
        ensures
            r == (PixelFormat {
                channel_type: ChannelType::U8,
                color_model: ColorModel::Gray,
                alpha: None,
                transfer: TransferFunction::Srgb,
                byte_order: ByteOrder::Native,
                subsampling: Subsampling::S444,
                yuv_matrix: YuvMatrix::Identity,
                planar: false,
            }),
    {
        PixelFormat {
            channel_type: ChannelType::U8,
            color_model: ColorModel::Gray,
            alpha: None,
            transfer: TransferFunction::Srgb,
            byte_order: ByteOrder::Native,
            subsampling: Subsampling::S444,
            yuv_matrix: YuvMatrix::Identity,
            planar: false,
        }
    }

    /// Linear gray.
    #[allow(non_snake_case)]
    pub fn GRAY_F32() -> (r: Self)
        ensures
            r == (PixelFormat {
                channel_type: ChannelType::F32,
                color_model: ColorModel::Gray,
                alpha: None,
                transfer: TransferFunction::Linear,
                byte_order: ByteOrder::Native,
                subsampling: Subsampling::S444,
                yuv_matrix: YuvMatrix::Identity,
                planar: false,
            }),
    {
        PixelFormat {
            channel_type: ChannelType::F32,
            color_model: ColorModel::Gray,
            alpha: None,
            transfer: TransferFunction::Linear,
            byte_order: ByteOrder::Native,
            subsampling: Subsampling::S444,
            yuv_matrix: YuvMatrix::Identity,
            planar: false,
        }
    }

    /// 8-bit planar YCbCr 4:2:0 by BT.601.
    #[allow(non_snake_case)]
    pub fn YCBCR_420_BT601_U8() -> (r: Self)
        ensures
            r == (PixelFormat {
                channel_type: ChannelType::U8,
                color_model: ColorModel::YCbCr,
                alpha: None,
                transfer: TransferFunction::Srgb,
                byte_order: ByteOrder::Native,
                subsampling: Subsampling::S420,
                yuv_matrix: YuvMatrix::Bt601,
                planar: true,
            }),
    {
        PixelFormat {
            channel_type: ChannelType::U8,
            color_model: ColorModel::YCbCr,
            alpha: None,
            transfer: TransferFunction::Srgb,
            byte_order: ByteOrder::Native,
            subsampling: Subsampling::S420,
            yuv_matrix: YuvMatrix::Bt601,
            planar: true,
        }
    }

    /// 8-bit planar YCbCr 4:2:0 by BT.709.
    #[allow(non_snake_case)]
    pub fn YCBCR_420_BT709_U8() -> (r: Self)
        ensures
            r == (PixelFormat {
                channel_type: ChannelType::U8,
                color_model: ColorModel::YCbCr,
                alpha: None,
                transfer: TransferFunction::Srgb,
                byte_order: ByteOrder::Native,
                subsampling: Subsampling::S420,
                yuv_matrix: YuvMatrix::Bt709,
                planar: true,
            }),
    {
        PixelFormat {
            channel_type: ChannelType::U8,
            color_model: ColorModel::YCbCr,
            alpha: None,
            transfer: TransferFunction::Srgb,
            byte_order: ByteOrder::Native,
            subsampling: Subsampling::S420,
            yuv_matrix: YuvMatrix::Bt709,
            planar: true,
        }
    }

    /// Oklab.
    #[allow(non_snake_case)]
    pub fn OKLAB_F32() -> (r: Self)
        ensures
            r == (PixelFormat {
                channel_type: ChannelType::F32,
                color_model: ColorModel::Oklab,
                alpha: None,
                transfer: TransferFunction::Linear,
                byte_order: ByteOrder::Native,
                subsampling: Subsampling::S444,
                yuv_matrix: YuvMatrix::Identity,
                planar: false,
            }),
    {
        PixelFormat {
            channel_type: ChannelType::F32,
            color_model: ColorModel::Oklab,
            alpha: None,
            transfer: TransferFunction::Linear,
            byte_order: ByteOrder::Native,
            subsampling: Subsampling::S444,
            yuv_matrix: YuvMatrix::Identity,
            planar: false,
        }
    }

    /// 8-bit sRGB with straight alpha, blue first.
    #[allow(non_snake_case)]
    pub fn BGRA_U8() -> (r: Self)
        ensures
            r == (PixelFormat {
                channel_type: ChannelType::U8,
                color_model: ColorModel::Rgb,
                alpha: Some(AlphaMode::Straight),
                transfer: TransferFunction::Srgb,
                byte_order: ByteOrder::Bgr,
                subsampling: Subsampling::S444,
                yuv_matrix: YuvMatrix::Identity,
                planar: false,
            }),
    {
        PixelFormat {
            channel_type: ChannelType::U8,
            color_model: ColorModel::Rgb,
            alpha: Some(AlphaMode::Straight),
            transfer: TransferFunction::Srgb,
            byte_order: ByteOrder::Bgr,
            subsampling: Subsampling::S444,
            yuv_matrix: YuvMatrix::Identity,
            planar: false,
        }
    }

    /// Number of channels, with alpha.
    pub fn channels(self) -> (r: u8)
        ensures
            r == self.color_model.colors() + (if self.alpha is None {
                0int
            } else {
                1
            }),
    {
        let n: u8 = self.color_model.color_channels();
        if self.has_alpha() {
            n + 1
        } else {
            n
        }
    }

    /// Whether there is an alpha channel.
    pub fn has_alpha(self) -> (r: bool)
        ensures
            r == (self.alpha is Some),
    {
        self.alpha.is_some()
    }

    /// Whether the transfer function is linear.
    pub fn is_linear(self) -> (r: bool)
        ensures
            r == (self.transfer == TransferFunction::Linear),
    {
        self.transfer == TransferFunction::Linear
    }

    /// Whether the transfer function is that of HDR content.
    pub fn is_hdr(self) -> (r: bool)
        ensures
            r == (self.transfer == TransferFunction::Pq || self.transfer == TransferFunction::Hlg),
    {
        self.transfer == TransferFunction::Pq || self.transfer == TransferFunction::Hlg
    }

    /// Whether chroma is subsampled.
    pub fn is_subsampled(self) -> (r: bool)
        ensures
            r == (self.subsampling != Subsampling::S444),
    {
        self.subsampling.is_subsampled()
    }

    /// Whether channels are stored apart.
    pub fn is_planar(self) -> (r: bool)
        ensures
            r == self.planar,
    {
        self.planar
    }

    /// Whether color is multiplied by alpha.
    pub fn is_premultiplied(self) -> (r: bool)
        ensures
            r == (self.alpha == Some(AlphaMode::Premultiplied)),
    {
        match self.alpha {
            Some(AlphaMode::Premultiplied) => true,
            _ => false,
        }
    }

    /// Whether the transfer function is perceptual.
    pub fn is_perceptual(self) -> (r: bool)
        ensures
            r == (self.transfer == TransferFunction::Srgb || self.transfer
                == TransferFunction::Bt709),
    {
        self.transfer == TransferFunction::Srgb || self.transfer == TransferFunction::Bt709
    }

    /// Whether the color model is YCbCr.
    pub fn is_ycbcr(self) -> (r: bool)
        ensures
            r == (self.color_model == ColorModel::YCbCr),
    {
        self.color_model == ColorModel::YCbCr
    }
}

// ── Descriptors ─────────────────────────────────────────────────────────────

/// The color model of a layout. CMYK has none here and counts as RGB.
pub open spec fn model_of(layout: ChannelLayout) -> ColorModel {
    match layout {
        ChannelLayout::Gray | ChannelLayout::GrayAlpha => ColorModel::Gray,
        ChannelLayout::Oklab | ChannelLayout::OklabA => ColorModel::Oklab,
        _ => ColorModel::Rgb,
    }
}

/// The layout of a model with or without an alpha channel. A model without a
/// layout of its own has that of RGB; blue first there is always an alpha
/// channel.
pub open spec fn layout_of(model: ColorModel, alpha: bool, order: ByteOrder) -> ChannelLayout {
    match model {
        ColorModel::Gray => if alpha {
            ChannelLayout::GrayAlpha
        } else {
            ChannelLayout::Gray
        },
        ColorModel::Oklab => if alpha {
            ChannelLayout::OklabA
        } else {
            ChannelLayout::Oklab
        },
        _ => if model == ColorModel::Rgb && order == ByteOrder::Bgr {
            ChannelLayout::Bgra
        } else if alpha {
            ChannelLayout::Rgba
        } else {
            ChannelLayout::Rgb
        },
    }
}

/// The pipeline format of a descriptor: interleaved, without subsampling.
pub open spec fn format_of(d: PixelDescriptor) -> PixelFormat {
    PixelFormat {
        channel_type: d.channel_type,
        color_model: model_of(d.layout),
        alpha: d.alpha,
        transfer: d.transfer,
        byte_order: if d.layout == ChannelLayout::Bgra {
            ByteOrder::Bgr
        } else {
            ByteOrder::Native
        },
        subsampling: Subsampling::S444,
        yuv_matrix: YuvMatrix::Identity,
        planar: false,
    }
}

/// The descriptor of a pipeline format, without what only the pipeline knows.
pub open spec fn descriptor_of(f: PixelFormat) -> PixelDescriptor {
    PixelDescriptor {
        channel_type: f.channel_type,
        layout: layout_of(f.color_model, f.alpha is Some, f.byte_order),
        alpha: f.alpha,
        transfer: f.transfer,
    }
}

impl From<PixelDescriptor> for PixelFormat {
    fn from(d: PixelDescriptor) -> (r: Self) {
        PixelFormat {
            channel_type: d.channel_type,
            color_model: match d.layout {
                ChannelLayout::Gray | ChannelLayout::GrayAlpha => ColorModel::Gray,
                ChannelLayout::Oklab | ChannelLayout::OklabA => ColorModel::Oklab,
                _ => ColorModel::Rgb,
            },
            alpha: d.alpha,
            transfer: d.transfer,
            byte_order: if d.layout == ChannelLayout::Bgra {
                ByteOrder::Bgr
            } else {
                ByteOrder::Native
            },
            subsampling: Subsampling::S444,
            yuv_matrix: YuvMatrix::Identity,
            planar: false,
        }
    }
}

impl vstd::std_specs::convert::FromSpecImpl<PixelDescriptor> for PixelFormat {
    open spec fn obeys_from_spec() -> bool {
        true
    }

    open spec fn from_spec(d: PixelDescriptor) -> PixelFormat {
        format_of(d)
    }
}

impl From<PixelFormat> for PixelDescriptor {
    fn from(f: PixelFormat) -> (r: Self) {
        let alpha = f.has_alpha();
        let layout = match f.color_model {
            ColorModel::Gray => if alpha {
                ChannelLayout::GrayAlpha
            } else {
                ChannelLayout::Gray
            },
            ColorModel::Oklab => if alpha {
                ChannelLayout::OklabA
            } else {
                ChannelLayout::Oklab
            },
            _ => if f.color_model == ColorModel::Rgb && f.byte_order == ByteOrder::Bgr {
                ChannelLayout::Bgra
            } else if alpha {
                ChannelLayout::Rgba
            } else {
                ChannelLayout::Rgb
            },
        };
        PixelDescriptor {
            channel_type: f.channel_type,
            layout,
            alpha: f.alpha,
            transfer: f.transfer,
        }
    }
}

impl vstd::std_specs::convert::FromSpecImpl<PixelFormat> for PixelDescriptor {
    open spec fn obeys_from_spec() -> bool {
        true
    }

    open spec fn from_spec(f: PixelFormat) -> PixelDescriptor {
        descriptor_of(f)
    }
}

/// A descriptor survives the way through a pipeline format, where its layout
/// has an alpha channel exactly if its alpha mode says so. A CMYK layout, and
/// one that is padded without saying so, do not.
pub proof fn law_descriptor_round_trip(d: PixelDescriptor)
    requires
        d.layout != ChannelLayout::Cmyk,
        d.layout != ChannelLayout::Bgra ==> (d.alpha is None <==> d.layout is Gray || d.layout is Rgb
            || d.layout is Oklab),
    ensures
        descriptor_of(format_of(d)) == d,
{
}

/// What a layout is in a pipeline: gray and Oklab layouts, with alpha or without,
/// are of their models, and all others count as RGB; only BGRA is blue first.
pub proof fn law_model_of_a_layout(d: PixelDescriptor)
    ensures
        format_of(d).color_model == ColorModel::Gray <==> d.layout is Gray || d.layout is GrayAlpha,
        format_of(d).color_model == ColorModel::Oklab <==> d.layout is Oklab || d.layout is OklabA,
        format_of(d).color_model == ColorModel::Rgb <==> d.layout is Rgb || d.layout is Rgba
            || d.layout is Bgra || d.layout is Cmyk,
        format_of(d).byte_order == ByteOrder::Bgr <==> d.layout is Bgra,
        format_of(d).channel_type == d.channel_type,
        format_of(d).alpha == d.alpha,
        format_of(d).transfer == d.transfer,
        format_of(d).subsampling == Subsampling::S444,
        format_of(d).yuv_matrix == YuvMatrix::Identity,
        !format_of(d).planar,
{
}

/// What a pipeline format is in memory: a gray or Oklab format of the layouts so
/// named, RGB with blue first BGRA, every other RGB or RGBA; with alpha exactly
/// where the format has a mode for it.
pub proof fn law_layout_of_a_model(f: PixelFormat)
    ensures
        ({
            let l = descriptor_of(f).layout;
            let other = f.color_model is Rgb && f.byte_order is Native || f.color_model is YCbCr
                || f.color_model is Xyz || f.color_model is Lab;
            &&& l is Gray <==> f.color_model is Gray && f.alpha is None
            &&& l is GrayAlpha <==> f.color_model is Gray && f.alpha is Some
            &&& l is Oklab <==> f.color_model is Oklab && f.alpha is None
            &&& l is OklabA <==> f.color_model is Oklab && f.alpha is Some
            &&& l is Bgra <==> f.color_model is Rgb && f.byte_order is Bgr
            &&& l is Rgb <==> other && f.alpha is None
            &&& l is Rgba <==> other && f.alpha is Some
        }),
        descriptor_of(f).channel_type == f.channel_type,
        descriptor_of(f).alpha == f.alpha,
        descriptor_of(f).transfer == f.transfer,
{
}

/// The channels of a descriptor are those of its pipeline format, where its layout
/// has an alpha channel exactly if its alpha mode says so and is not CMYK.
pub proof fn law_channels_agree(d: PixelDescriptor)
    requires
        d.layout != ChannelLayout::Cmyk,
        d.alpha is None <==> d.layout is Gray || d.layout is Rgb || d.layout is Oklab,
    ensures
        format_of(d).color_model.colors() + (if d.alpha is None { 0int } else { 1 })
            == d.layout.count(),
{
}

/// Gray is one color channel; every other model has three.
pub proof fn law_color_channels(m: ColorModel)
    ensures
        m.colors() == 1 <==> m is Gray,
        m.colors() == 3 <==> m is Rgb || m is YCbCr || m is Oklab || m is Xyz || m is Lab,
{
}

/// The matrix code points of H.273 that are known: 0 is none, 1 BT.709, 5 and 6
/// BT.601, 9 BT.2020.
pub proof fn law_matrix_codes(code: u8)
    ensures
        YuvMatrix::of_code(code) == Some(YuvMatrix::Identity) <==> code == 0,
        YuvMatrix::of_code(code) == Some(YuvMatrix::Bt709) <==> code == 1,
        YuvMatrix::of_code(code) == Some(YuvMatrix::Bt601) <==> code == 5 || code == 6,
        YuvMatrix::of_code(code) == Some(YuvMatrix::Bt2020) <==> code == 9,
        YuvMatrix::of_code(code) is None <==> !(code == 0 || code == 1 || code == 5 || code == 6
            || code == 9),
{
}

/// The luma weights of the matrices, in ten-thousandths: they add up to one, and
/// but for the identity green weighs most and blue least.
pub proof fn law_luma_weights(m: YuvMatrix)
    ensures
        m.weights().len() == 3,
        m.weights()[0] + m.weights()[1] + m.weights()[2] == 10000,
        m != YuvMatrix::Identity ==> m.weights()[2] < m.weights()[0] < m.weights()[1],
        m is Identity ==> m.weights()[0] == 10000,
        m is Bt601 ==> m.weights()[0] == 2990 && m.weights()[2] == 1140,
        m is Bt709 ==> m.weights()[0] == 2126 && m.weights()[2] == 722,
        m is Bt2020 ==> m.weights()[0] == 2627 && m.weights()[2] == 593,
{
}

/// The conversions both ways are these.
pub proof fn law_conversions(d: PixelDescriptor, f: PixelFormat)
    ensures
        <PixelFormat as vstd::std_specs::convert::FromSpec<PixelDescriptor>>::from_spec(d)
            == format_of(d),
        <PixelDescriptor as vstd::std_specs::convert::FromSpec<PixelFormat>>::from_spec(f)
            == descriptor_of(f),
        <PixelFormat as vstd::std_specs::convert::FromSpec<PixelDescriptor>>::obeys_from_spec(),
        <PixelDescriptor as vstd::std_specs::convert::FromSpec<PixelFormat>>::obeys_from_spec(),
{
}

} // verus!
