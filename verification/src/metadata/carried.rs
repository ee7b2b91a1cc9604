//! Metadata as it is carried, and as it is embedded.
use super::policy::{IccRetention, MetadataPolicy};
use crate::bytes::{share, share_again, shared_view};
use crate::cicp::{Cicp, ColorPrimaries, ContentLightLevel, TransferFunction};
use crate::exif::policy::{ExifPolicy, Retention};
use crate::exif::retain::{retain_reconciled, retained, Outcome};
use crate::helpers::{blob_orientation, parse_exif_orientation};
use crate::icc::{icc_identified_cicp, is_common_srgb};
use crate::info::ImageInfo;
use crate::orientation::Orientation;
use std::borrow::Cow;
use std::sync::Arc;
use vstd::prelude::*;

verus! {

/// Image metadata for an encode/decode round trip. The byte buffers are shared,
/// so that cloning is cheap.
#[derive(Debug, PartialEq)]
#[non_exhaustive]
pub struct Metadata {
    /// ICC color profile.
    pub icc_profile: Option<Arc<[u8]>>,
    /// EXIF blob.
    pub exif: Option<Arc<[u8]>>,
    /// XMP packet.
    pub xmp: Option<Arc<[u8]>>,
    /// CICP color description.
    pub cicp: Option<Cicp>,
    /// HDR content light level.
    pub content_light_level: Option<ContentLightLevel>,
    /// HDR mastering display.
    pub mastering_display: Option<zenpixels::MasteringDisplay>,
    /// Orientation, which the EXIF tag is made to agree with.
    pub orientation: Orientation,
    /// What [`for_embedding`](Self::for_embedding) keeps.
    pub policy: MetadataPolicy,
}

/// The contents of [`Metadata`].
#[verifier::ext_equal]
pub struct MetadataView {
    pub icc_profile: Option<Seq<u8>>,
    pub exif: Option<Seq<u8>>,
    pub xmp: Option<Seq<u8>>,
    pub cicp: Option<Cicp>,
    pub content_light_level: Option<ContentLightLevel>,
    pub mastering_display: Option<zenpixels::MasteringDisplay>,
    pub orientation: Orientation,
    pub policy: MetadataPolicy,
}

impl View for Metadata {
    type V = MetadataView;

    open spec fn view(&self) -> MetadataView {
        MetadataView {
            icc_profile: shared_view(self.icc_profile),
            exif: shared_view(self.exif),
            xmp: shared_view(self.xmp),
            cicp: self.cicp,
            content_light_level: self.content_light_level,
            mastering_display: self.mastering_display,
            orientation: self.orientation,
            policy: self.policy,
        }
    }
}

impl MetadataView {
    /// No metadata, under the default policy.
    pub open spec fn empty() -> MetadataView {
        MetadataView {
            icc_profile: None,
            exif: None,
            xmp: None,
            cicp: None,
            content_light_level: None,
            mastering_display: None,
            orientation: Orientation::Identity,
            policy: MetadataPolicy::Web,
        }
    }

    /// The metadata that `policy` leaves.
    pub open spec fn filtered(self, policy: MetadataPolicy) -> MetadataView {
        let f = policy.resolved();
        let orientation = if f.exif.orientation == Retention::Keep {
            self.orientation
        } else {
            Orientation::Identity
        };
        MetadataView {
            icc_profile: kept_icc(self.icc_profile, f.icc),
            exif: kept_exif(self.exif, f.exif, orientation),
            xmp: kept(f.xmp, self.xmp),
            cicp: kept(f.cicp, self.cicp),
            content_light_level: kept(f.hdr, self.content_light_level),
            mastering_display: kept(f.hdr, self.mastering_display),
            orientation,
            policy: MetadataPolicy::PreserveExact,
        }
    }
}

/// A field under a retention.
pub open spec fn kept<T>(r: Retention, field: Option<T>) -> Option<T> {
    if r == Retention::Keep {
        field
    } else {
        None
    }
}

/// Whether a profile is recognized as sRGB.
pub open spec fn is_srgb_profile(icc: Seq<u8>) -> bool {
    icc_identified_cicp(icc) == Some(Cicp::of(1, 13, 0, true))
}

/// What is kept of an ICC profile where no target is known.
pub open spec fn kept_icc(icc: Option<Seq<u8>>, r: IccRetention) -> Option<Seq<u8>> {
    match icc {
        None => None,
        Some(b) => match r {
            IccRetention::Drop => None,
            IccRetention::KeepNonSrgb => if is_srgb_profile(b) {
                None
            } else {
                Some(b)
            },
            _ => Some(b),
        },
    }
}

/// What is kept of an EXIF blob: pruned by `policy`, its orientation tag in
/// agreement with `want`.
pub open spec fn kept_exif(exif: Option<Seq<u8>>, policy: ExifPolicy, want: Orientation) -> Option<
    Seq<u8>,
> {
    match exif {
        None => None,
        Some(src) => match retained(src, policy, Some(want)) {
            Outcome::Dropped => None,
            Outcome::Unchanged => Some(src),
            Outcome::Rewritten(b) => Some(b),
        },
    }
}

/// Prune an EXIF blob and make its orientation tag agree with `want`, sharing
/// the source where it passes through.
fn retain_exif(exif: &Option<Arc<[u8]>>, policy: &ExifPolicy, want: Orientation) -> (r: Option<
    Arc<[u8]>,
>)
    ensures
        shared_view(r) == kept_exif(shared_view(*exif), *policy, want),
{
    match exif {
        None => None,
        Some(src) => {
            match retain_reconciled(src, policy, Some(want)) {
                None => None,
                Some(Cow::Borrowed(_)) => Some(Arc::clone(src)),
                Some(Cow::Owned(v)) => Some(share(v)),
            }
        },
    }
}

/// Keep an ICC profile as far as `r` says where no target is known.
fn retain_icc(icc: &Option<Arc<[u8]>>, r: IccRetention) -> (out: Option<Arc<[u8]>>)
    ensures
        shared_view(out) == kept_icc(shared_view(*icc), r),
{
    match icc {
        None => None,
        Some(b) => match r {
            IccRetention::Drop => None,
            IccRetention::KeepNonSrgb => if is_common_srgb(b) {
                None
            } else {
                Some(Arc::clone(b))
            },
            _ => Some(Arc::clone(b)),
        },
    }
}

impl Metadata {
    /// No metadata.
    pub fn none() -> (r: Self)
        ensures
            r@ == MetadataView::empty(),
    {
        Metadata {
            icc_profile: None,
            exif: None,
            xmp: None,
            cicp: None,
            content_light_level: None,
            mastering_display: None,
            orientation: Orientation::Identity,
            policy: MetadataPolicy::Web,
        }
    }

    /// Set the ICC profile.
    pub fn with_icc(self, icc: Vec<u8>) -> (r: Self)
        ensures
            r@ == (MetadataView { icc_profile: Some(icc@), ..self@ }),
    {
        Metadata { icc_profile: Some(share(icc)), ..self }
    }

    /// Set the EXIF blob. Where no orientation was set, the one that the blob
    /// declares is taken over.
    pub fn with_exif(self, exif: Vec<u8>) -> (r: Self)
        ensures
            r@ == (MetadataView {
                exif: Some(exif@),
                orientation: if self.orientation == Orientation::Identity {
                    match blob_orientation(exif@) {
                        Some(o) => o,
                        None => Orientation::Identity,
                    }
                } else {
                    self.orientation
                },
                ..self@
            }),
    {
        let orientation = if self.orientation == Orientation::Identity {
            match parse_exif_orientation(&exif) {
                Some(o) => o,
                None => Orientation::Identity,
            }
        } else {
            self.orientation
        };
        Metadata { exif: Some(share(exif)), orientation, ..self }
    }

    /// Set the XMP packet.
    pub fn with_xmp(self, xmp: Vec<u8>) -> (r: Self)
        ensures
            r@ == (MetadataView { xmp: Some(xmp@), ..self@ }),
    {
        Metadata { xmp: Some(share(xmp)), ..self }
    }

    /// Set the CICP color description.
    pub fn with_cicp(self, cicp: Cicp) -> (r: Self)
        ensures
            r@ == (MetadataView { cicp: Some(cicp), ..self@ }),
    {
        Metadata { cicp: Some(cicp), ..self }
    }

    /// Set the HDR content light level.
    pub fn with_content_light_level(self, clli: ContentLightLevel) -> (r: Self)
        ensures
            r@ == (MetadataView { content_light_level: Some(clli), ..self@ }),
    {
        Metadata { content_light_level: Some(clli), ..self }
    }

    /// Set the HDR mastering display.
    pub fn with_mastering_display(self, mdcv: zenpixels::MasteringDisplay) -> (r: Self)
        ensures
            r@ == (MetadataView { mastering_display: Some(mdcv), ..self@ }),
    {
        Metadata { mastering_display: Some(mdcv), ..self }
    }

    /// Set the orientation.
    pub fn with_orientation(self, orientation: Orientation) -> (r: Self)
        ensures
            r@ == (MetadataView { orientation, ..self@ }),
    {
        Metadata { orientation, ..self }
    }

    /// Set what [`for_embedding`](Self::for_embedding) keeps.
    #[must_use]
    pub fn with_policy(self, policy: MetadataPolicy) -> (r: Self)
        ensures
            r@ == (MetadataView { policy, ..self@ }),
    {
        Metadata { policy, ..self }
    }

    /// The metadata that a codec should embed: filtered by its own policy.
    #[must_use]
    pub fn for_embedding(&self) -> (r: Metadata)
        ensures
            r@ == self@.filtered(self.policy),
    {
        self.filtered(&self.policy)
    }

    /// Whether there is no metadata.
    pub fn is_empty(&self) -> (b: bool)
        ensures
            b == (self@ == (MetadataView { policy: self.policy, ..MetadataView::empty() })),
    {
        self.icc_profile.is_none() && self.exif.is_none() && self.xmp.is_none()
            && self.cicp.is_none() && self.content_light_level.is_none()
            && self.mastering_display.is_none() && self.orientation == Orientation::Identity
    }

    /// The transfer function that the CICP description names; unknown without
    /// one.
    pub fn transfer_function(&self) -> (r: TransferFunction)
        ensures
            r == (match self.cicp {
                Some(c) => TransferFunction::of_code(c.transfer_characteristics),
                None => TransferFunction::Unknown,
            }),
    {
        match &self.cicp {
            Some(c) => c.transfer_function_enum(),
            None => TransferFunction::Unknown,
        }
    }

    /// The primaries that the CICP description names; BT.709 without one.
    pub fn color_primaries(&self) -> (r: ColorPrimaries)
        ensures
            r == (match self.cicp {
                Some(c) => ColorPrimaries::of_code(c.color_primaries),
                None => ColorPrimaries::Bt709,
            }),
    {
        match &self.cicp {
            Some(c) => c.color_primaries_enum(),
            None => ColorPrimaries::Bt709,
        }
    }

    /// The metadata that `policy` leaves.
    ///
    /// The ICC profile is kept, kept unless it is sRGB, or dropped. EXIF is
    /// pruned by category and its orientation tag made to agree with the
    /// orientation field, so that no consumer rotates twice. XMP, CICP and HDR
    /// data are kept or dropped as a whole. The result is final: its own policy
    /// keeps everything.
    #[must_use]
    pub fn filtered(&self, policy: &MetadataPolicy) -> (r: Metadata)
        ensures
            r@ == self@.filtered(*policy),
    {
        let f = policy.fields();
        let orientation = if f.exif.orientation.keeps() {
            self.orientation
        } else {
            Orientation::Identity
        };
        let hdr = f.hdr.keeps();
        Metadata {
            icc_profile: retain_icc(&self.icc_profile, f.icc),
            exif: retain_exif(&self.exif, &f.exif, orientation),
            xmp: if f.xmp.keeps() {
                share_again(&self.xmp)
            } else {
                None
            },
            cicp: if f.cicp.keeps() {
                self.cicp
            } else {
                None
            },
            content_light_level: if hdr {
                self.content_light_level
            } else {
                None
            },
            mastering_display: if hdr {
                self.mastering_display
            } else {
                None
            },
            orientation,
            policy: MetadataPolicy::PreserveExact,
        }
    }
}

impl Clone for Metadata {
    fn clone(&self) -> (r: Self)
        ensures
            r == *self,
    {
        Metadata {
            icc_profile: share_again(&self.icc_profile),
            exif: share_again(&self.exif),
            xmp: share_again(&self.xmp),
            cicp: self.cicp,
            content_light_level: self.content_light_level,
            mastering_display: self.mastering_display,
            orientation: self.orientation,
            policy: self.policy,
        }
    }
}

impl Default for Metadata {
    fn default() -> (r: Self)
        ensures
            r@ == MetadataView::empty(),
    {
        Metadata::none()
    }
}

/// What decoding an image gives as metadata, under the default policy.
pub open spec fn decoded_metadata(info: ImageInfo) -> Metadata {
    Metadata {
        icc_profile: info.source_color.icc_profile,
        exif: info.embedded_metadata.exif,
        xmp: info.embedded_metadata.xmp,
        cicp: info.source_color.cicp,
        content_light_level: info.source_color.content_light_level,
        mastering_display: info.source_color.mastering_display,
        orientation: info.orientation,
        policy: MetadataPolicy::Web,
    }
}

impl From<&ImageInfo> for Metadata {
    fn from(info: &ImageInfo) -> (r: Self) {
        Metadata {
            icc_profile: share_again(&info.source_color.icc_profile),
            exif: share_again(&info.embedded_metadata.exif),
            xmp: share_again(&info.embedded_metadata.xmp),
            cicp: info.source_color.cicp,
            content_light_level: info.source_color.content_light_level,
            mastering_display: info.source_color.mastering_display,
            orientation: info.orientation,
            policy: MetadataPolicy::default(),
        }
    }
}

impl vstd::std_specs::convert::FromSpecImpl<&ImageInfo> for Metadata {
    open spec fn obeys_from_spec() -> bool {
        true
    }

    open spec fn from_spec(info: &ImageInfo) -> Metadata {
        decoded_metadata(*info)
    }
}

impl ImageInfo {
    /// The metadata that was decoded, for carrying into an encode.
    pub fn metadata(&self) -> (r: Metadata)
        ensures
            r == decoded_metadata(*self),
            r@.icc_profile == shared_view(self.source_color.icc_profile),
            r@.exif == shared_view(self.embedded_metadata.exif),
            r@.xmp == shared_view(self.embedded_metadata.xmp),
            r@.cicp == self.source_color.cicp,
            r@.content_light_level == self.source_color.content_light_level,
            r@.mastering_display == self.source_color.mastering_display,
            r@.orientation == self.orientation,
            r@.policy == MetadataPolicy::Web,
    {
        Metadata::from(self)
    }
}

} // verus!
