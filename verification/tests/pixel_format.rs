//! Pixel formats and descriptors.
use zencodec::cicp::TransferFunction;
use zencodec::pixel_format::{ByteOrder, ColorModel, PixelFormat, Subsampling, YuvMatrix};
use zencodec::pixels::{AlphaMode, ChannelType, PixelDescriptor};

#[test]
fn color_model_channels() {
    assert_eq!(ColorModel::Gray.color_channels(), 1);
    assert_eq!(ColorModel::Rgb.color_channels(), 3);
    assert_eq!(ColorModel::YCbCr.color_channels(), 3);
    assert_eq!(ColorModel::Oklab.color_channels(), 3);
    assert_eq!(ColorModel::Xyz.color_channels(), 3);
    assert_eq!(ColorModel::Lab.color_channels(), 3);
}

#[test]
fn subsampling_factors() {
    assert_eq!(Subsampling::S444.h_factor(), 1);
    assert_eq!(Subsampling::S444.v_factor(), 1);
    assert_eq!(Subsampling::S422.h_factor(), 2);
    assert_eq!(Subsampling::S422.v_factor(), 1);
    assert_eq!(Subsampling::S420.h_factor(), 2);
    assert_eq!(Subsampling::S420.v_factor(), 2);
    assert_eq!(Subsampling::S411.h_factor(), 4);
    assert_eq!(Subsampling::S411.v_factor(), 1);
}

#[test]
fn subsampling_is_subsampled() {
    assert!(!Subsampling::S444.is_subsampled());
    assert!(Subsampling::S422.is_subsampled());
    assert!(Subsampling::S420.is_subsampled());
    assert!(Subsampling::S411.is_subsampled());
}

#[test]
fn yuv_matrix_coeffs() {
    let bt601 = YuvMatrix::Bt601.luma_weights().map(|w| f64::from(w) / 10000.0);
    assert!((bt601[0] - 0.299).abs() < 1e-6);
    assert!((bt601[1] - 0.587).abs() < 1e-6);
    assert!((bt601[2] - 0.114).abs() < 1e-6);

    let bt709 = YuvMatrix::Bt709.luma_weights().map(|w| f64::from(w) / 10000.0);
    assert!((bt709[0] - 0.2126).abs() < 1e-6);
}

#[test]
fn yuv_matrix_from_cicp() {
    assert_eq!(YuvMatrix::from_cicp(0), Some(YuvMatrix::Identity));
    assert_eq!(YuvMatrix::from_cicp(1), Some(YuvMatrix::Bt709));
    assert_eq!(YuvMatrix::from_cicp(5), Some(YuvMatrix::Bt601));
    assert_eq!(YuvMatrix::from_cicp(6), Some(YuvMatrix::Bt601));
    assert_eq!(YuvMatrix::from_cicp(9), Some(YuvMatrix::Bt2020));
    assert_eq!(YuvMatrix::from_cicp(99), None);
}

#[test]
fn pixel_format_presets() {
    assert_eq!(PixelFormat::SRGB_RGBA_U8().channels(), 4);
    assert!(PixelFormat::SRGB_RGBA_U8().has_alpha());
    assert!(!PixelFormat::SRGB_RGBA_U8().is_linear());
    assert!(!PixelFormat::SRGB_RGBA_U8().is_hdr());
    assert!(!PixelFormat::SRGB_RGBA_U8().is_planar());

    assert_eq!(PixelFormat::LINEAR_RGBA_F32().channels(), 4);
    assert!(PixelFormat::LINEAR_RGBA_F32().is_linear());

    assert_eq!(PixelFormat::GRAY_U8().channels(), 1);
    assert!(!PixelFormat::GRAY_U8().has_alpha());

    assert!(PixelFormat::YCBCR_420_BT601_U8().is_ycbcr());
    assert!(PixelFormat::YCBCR_420_BT601_U8().is_subsampled());
    assert!(PixelFormat::YCBCR_420_BT601_U8().is_planar());
    assert_eq!(PixelFormat::YCBCR_420_BT601_U8().channels(), 3);
}

#[test]
fn pixel_format_hdr_queries() {
    let pq = PixelFormat {
        transfer: TransferFunction::Pq,
        ..PixelFormat::LINEAR_RGBA_F32()
    };
    assert!(pq.is_hdr());
    assert!(!pq.is_linear());

    let hlg = PixelFormat {
        transfer: TransferFunction::Hlg,
        ..PixelFormat::LINEAR_RGBA_F32()
    };
    assert!(hlg.is_hdr());
}

#[test]
fn pixel_format_perceptual() {
    assert!(PixelFormat::SRGB_RGBA_U8().is_perceptual());
    assert!(!PixelFormat::LINEAR_RGBA_F32().is_perceptual());
}

#[test]
fn pixel_format_from_descriptor() {
    let desc = PixelDescriptor::RGB8_SRGB();
    let pf = PixelFormat::from(desc);
    assert_eq!(pf.color_model, ColorModel::Rgb);
    assert_eq!(pf.byte_order, ByteOrder::Native);
    assert_eq!(pf.channel_type, ChannelType::U8);
    assert_eq!(pf.alpha, None);
    assert_eq!(pf.transfer, TransferFunction::Srgb);
    assert_eq!(pf.subsampling, Subsampling::S444);
    assert_eq!(pf.yuv_matrix, YuvMatrix::Identity);
    assert!(!pf.planar);
}

#[test]
fn pixel_format_to_descriptor_roundtrip() {
    let pf = PixelFormat::SRGB_RGBA_U8();
    let desc = PixelDescriptor::from(pf);
    assert_eq!(desc, PixelDescriptor::RGBA8_SRGB());

    let pf2 = PixelFormat::from(desc);
    assert_eq!(pf2.color_model, pf.color_model);
    assert_eq!(pf2.byte_order, pf.byte_order);
    assert_eq!(pf2.channel_type, pf.channel_type);
    assert_eq!(pf2.alpha, pf.alpha);
    assert_eq!(pf2.transfer, pf.transfer);
}

#[test]
fn pixel_format_bgra_roundtrip() {
    let desc = PixelDescriptor::BGRA8_SRGB();
    let pf = PixelFormat::from(desc);
    assert_eq!(pf.color_model, ColorModel::Rgb);
    assert_eq!(pf.byte_order, ByteOrder::Bgr);
    let desc2 = PixelDescriptor::from(pf);
    assert_eq!(desc2, desc);
}

#[test]
fn pixel_format_size() {
    // Verify it stays small (should be <=12 bytes)
    assert!(
        std::mem::size_of::<PixelFormat>() <= 12,
        "PixelFormat is {} bytes, expected <= 12",
        std::mem::size_of::<PixelFormat>()
    );
}

#[test]
fn luma_weights_add_up() {
    for m in [YuvMatrix::Identity, YuvMatrix::Bt601, YuvMatrix::Bt709, YuvMatrix::Bt2020] {
        assert_eq!(m.luma_weights().iter().sum::<u16>(), 10000);
    }
    assert_eq!(YuvMatrix::Bt2020.luma_weights(), [2627, 6780, 593]);
}

#[test]
fn defaults_are_native_unsubsampled_identity() {
    assert_eq!(ByteOrder::default(), ByteOrder::Native);
    assert_eq!(Subsampling::default(), Subsampling::S444);
    assert_eq!(YuvMatrix::default(), YuvMatrix::Identity);
}

#[test]
fn descriptors_measure_pixels() {
    let d = PixelDescriptor::RGBA8_SRGB();
    assert_eq!(d.layout.channels(), 4);
    assert_eq!(d.bytes_per_pixel(), 4);
    assert!(d.has_alpha());
    assert!(!PixelDescriptor::RGB8_SRGB().has_alpha());
    assert_eq!(PixelDescriptor::RGB8_SRGB().bytes_per_pixel(), 3);
    assert_eq!(ChannelType::F32.byte_size(), 4);
    assert_eq!(ChannelType::U16.byte_size(), 2);
}

#[test]
fn premultiplied_is_told_from_straight() {
    let straight = PixelFormat::SRGB_RGBA_U8();
    assert!(!straight.is_premultiplied());
    let pre = PixelFormat { alpha: Some(AlphaMode::Premultiplied), ..straight };
    assert!(pre.is_premultiplied());
}
