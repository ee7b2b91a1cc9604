//! What a decoder reports of an image.
use crate::bytes::{share, shared_view};
use crate::cicp::{Cicp, ContentLightLevel};
use crate::format::definition::ImageFormat;
use crate::orientation::Orientation;
use std::sync::Arc;
use vstd::prelude::*;

verus! {

/// `zenpixels::MasteringDisplay`, carried through unread.
#[verifier::external_type_specification]
#[verifier::external_body]
pub struct ExMasteringDisplay(zenpixels::MasteringDisplay);

/// Which color description a color-managed consumer should follow.
#[derive(Clone, Copy, Debug, PartialEq, Eq, Hash, Structural)]
pub enum ColorAuthority {
    Icc,
    Cicp,
}

/// The color description that a source carries.
#[derive(Debug, PartialEq)]
#[non_exhaustive]
pub struct SourceColor {
    /// CICP code points.
    pub cicp: Option<Cicp>,
    /// ICC profile.
    pub icc_profile: Option<Arc<[u8]>>,
    /// Which of the two takes precedence.
    pub color_authority: ColorAuthority,
    /// Number of channels.
    pub channel_count: Option<u8>,
    /// HDR content light level.
    pub content_light_level: Option<ContentLightLevel>,
    /// HDR mastering display.
    pub mastering_display: Option<zenpixels::MasteringDisplay>,
}

/// The metadata segments that a source carries.
#[derive(Debug, PartialEq)]
#[non_exhaustive]
pub struct EmbeddedMetadata {
    /// EXIF segment.
    pub exif: Option<Arc<[u8]>>,
    /// XMP packet.
    pub xmp: Option<Arc<[u8]>>,
}

/// What is known of an image without its pixels.
#[derive(PartialEq)]
#[non_exhaustive]
pub struct ImageInfo {
    /// Width in pixels.
    pub width: u32,
    /// Height in pixels.
    pub height: u32,
    /// Format of the file.
    pub format: ImageFormat,
    /// Whether the image has an alpha channel.
    pub has_alpha: bool,
    /// Orientation of the stored pixels.
    pub orientation: Orientation,
    /// Color description.
    pub source_color: SourceColor,
    /// Metadata segments.
    pub embedded_metadata: EmbeddedMetadata,
}

impl SourceColor {
    /// Whether nothing is known of the color.
    pub open spec fn is_blank(self) -> bool {
        &&& self.cicp is None
        &&& self.icc_profile is None
        &&& self.color_authority == ColorAuthority::Icc
        &&& self.channel_count is None
        &&& self.content_light_level is None
        &&& self.mastering_display is None
    }

    /// Set the CICP code points.
    pub fn with_cicp(self, cicp: Cicp) -> (r: Self)
        ensures
            r == (SourceColor { cicp: Some(cicp), ..self }),
    {
        SourceColor { cicp: Some(cicp), ..self }
    }

    /// Set the ICC profile.
    pub fn with_icc_profile(self, icc: Vec<u8>) -> (r: Self)
        ensures
            shared_view(r.icc_profile) == Some(icc@),
            r == (SourceColor { icc_profile: r.icc_profile, ..self }),
    {
        SourceColor { icc_profile: Some(share(icc)), ..self }
    }

    /// Set which description takes precedence.
    pub fn with_color_authority(self, authority: ColorAuthority) -> (r: Self)
        ensures
            r == (SourceColor { color_authority: authority, ..self }),
    {
        SourceColor { color_authority: authority, ..self }
    }

    /// Set the number of channels.
    pub fn with_channel_count(self, count: u8) -> (r: Self)
        ensures
            r == (SourceColor { channel_count: Some(count), ..self }),
    {
        SourceColor { channel_count: Some(count), ..self }
    }
}

impl Default for SourceColor {
    fn default() -> (r: Self)
        ensures
            r.is_blank(),
    {
        SourceColor {
            cicp: None,
            icc_profile: None,
            color_authority: ColorAuthority::Icc,
            channel_count: None,
            content_light_level: None,
            mastering_display: None,
        }
    }
}

impl ImageInfo {
    /// An image of this size, with nothing else known of it.
    pub fn new(width: u32, height: u32, format: ImageFormat) -> (r: Self)
        ensures
            r.width == width,
            r.height == height,
            r.format == format,
            !r.has_alpha,
            r.orientation == Orientation::Identity,
            r.source_color.is_blank(),
            r.embedded_metadata.exif is None,
            r.embedded_metadata.xmp is None,
    {
        ImageInfo {
            width,
            height,
            format,
            has_alpha: false,
            orientation: Orientation::Identity,
            source_color: SourceColor::default(),
            embedded_metadata: EmbeddedMetadata { exif: None, xmp: None },
        }
    }

    /// Say whether the image has an alpha channel.
    pub fn with_alpha(self, has_alpha: bool) -> (r: Self)
        ensures
            r == (ImageInfo { has_alpha, ..self }),
    {
        ImageInfo { has_alpha, ..self }
    }

    /// Set the ICC profile.
    pub fn with_icc_profile(self, icc: Vec<u8>) -> (r: Self)
        ensures
            shared_view(r.source_color.icc_profile) == Some(icc@),
            r == (ImageInfo {
                source_color: SourceColor {
                    icc_profile: r.source_color.icc_profile,
                    ..self.source_color
                },
                ..self
            }),
    {
        ImageInfo { source_color: self.source_color.with_icc_profile(icc), ..self }
    }

    /// Set the EXIF segment.
    pub fn with_exif(self, exif: Vec<u8>) -> (r: Self)
        ensures
            shared_view(r.embedded_metadata.exif) == Some(exif@),
            r == (ImageInfo {
                embedded_metadata: EmbeddedMetadata {
                    exif: r.embedded_metadata.exif,
                    ..self.embedded_metadata
                },
                ..self
            }),
    {
        ImageInfo {
            embedded_metadata: EmbeddedMetadata {
                exif: Some(share(exif)),
                xmp: self.embedded_metadata.xmp,
            },
            ..self
        }
    }

    /// Set the XMP packet.
    pub fn with_xmp(self, xmp: Vec<u8>) -> (r: Self)
        ensures
            shared_view(r.embedded_metadata.xmp) == Some(xmp@),
            r == (ImageInfo {
                embedded_metadata: EmbeddedMetadata {
                    xmp: r.embedded_metadata.xmp,
                    ..self.embedded_metadata
                },
                ..self
            }),
    {
        ImageInfo {
            embedded_metadata: EmbeddedMetadata {
                exif: self.embedded_metadata.exif,
                xmp: Some(share(xmp)),
            },
            ..self
        }
    }

    /// Set the CICP code points.
    pub fn with_cicp(self, cicp: Cicp) -> (r: Self)
        ensures
            r == (ImageInfo {
                source_color: SourceColor { cicp: Some(cicp), ..self.source_color },
                ..self
            }),
    {
        ImageInfo { source_color: self.source_color.with_cicp(cicp), ..self }
    }

    /// Set the HDR content light level.
    pub fn with_content_light_level(self, clli: ContentLightLevel) -> (r: Self)
        ensures
            r == (ImageInfo {
                source_color: SourceColor { content_light_level: Some(clli), ..self.source_color },
                ..self
            }),
    {
        ImageInfo {
            source_color: SourceColor { content_light_level: Some(clli), ..self.source_color },
            ..self
        }
    }

    /// Set the orientation.
    pub fn with_orientation(self, orientation: Orientation) -> (r: Self)
        ensures
            r == (ImageInfo { orientation, ..self }),
    {
        ImageInfo { orientation, ..self }
    }
}

/// A blank color description says nothing: no code points, profile, channels or
/// light levels, and a profile would be trusted first.
pub proof fn law_blank_color(c: SourceColor)
    ensures
        c.is_blank() <==> c.cicp is None && c.icc_profile is None && c.color_authority
            == ColorAuthority::Icc && c.channel_count is None && c.content_light_level is None
            && c.mastering_display is None,
{
}

} // verus!
