//! Which metadata to keep.
use crate::exif::policy::{ExifPolicy, Retention};
use vstd::prelude::*;

verus! {

/// How to treat an ICC profile.
#[derive(Debug, Clone, Copy, PartialEq, Eq, Structural)]
#[non_exhaustive]
pub enum IccRetention {
    /// Always drop the profile.
    Drop,
    /// Keep the profile unless it is a redundant sRGB profile.
    KeepNonSrgb,
    /// Keep the profile as it is.
    Keep,
    /// Drop the profile when code points describe the color. Takes effect where
    /// the target is known; kept otherwise.
    DropIfCicpRepresentable,
    /// Drop the profile when the target's code points are safe as the sole
    /// carrier and describe the color. Takes effect where the target is known;
    /// kept otherwise.
    DropIfCicpSafeSoleCarrier,
}

/// Per-field metadata retention.
#[derive(Debug, Clone, Copy, PartialEq, Eq, Structural)]
#[non_exhaustive]
pub struct MetadataFields {
    /// ICC color profile.
    pub icc: IccRetention,
    /// EXIF, pruned by category.
    pub exif: ExifPolicy,
    /// XMP, as a whole.
    pub xmp: Retention,
    /// CICP color signaling.
    pub cicp: Retention,
    /// HDR content light level and mastering display.
    pub hdr: Retention,
}

/// A metadata retention policy.
#[derive(Debug, Clone, Copy, PartialEq, Eq, Structural)]
#[non_exhaustive]
pub enum MetadataPolicy {
    /// Keep everything byte for byte, even a redundant sRGB profile.
    PreserveExact,
    /// Keep everything but a redundant sRGB profile.
    Preserve,
    /// The default. Keep the ICC profile unless it is a redundant sRGB one,
    /// EXIF orientation and rights, and CICP and HDR signaling.
    Web,
    /// Keep only what places pixels on screen: the ICC profile unless it is a
    /// redundant sRGB one, CICP and HDR signaling, and EXIF orientation.
    ColorAndRotation,
    /// Explicit per-field control.
    Custom(MetadataFields),
}

impl MetadataFields {
    /// The fields of a policy that keeps everything.
    pub open spec fn all_kept() -> MetadataFields {
        MetadataFields {
            icc: IccRetention::Keep,
            exif: ExifPolicy::uniform(Retention::Keep),
            xmp: Retention::Keep,
            cicp: Retention::Keep,
            hdr: Retention::Keep,
        }
    }

    /// The fields of a policy that keeps color signaling and the EXIF
    /// categories of `exif`.
    pub open spec fn color_and(exif: ExifPolicy) -> MetadataFields {
        MetadataFields {
            icc: IccRetention::KeepNonSrgb,
            exif,
            xmp: Retention::Discard,
            cicp: Retention::Keep,
            hdr: Retention::Keep,
        }
    }

    /// Keep every field.
    #[allow(non_snake_case)]
    pub fn KEEP_ALL() -> (r: Self)
        ensures
            r == MetadataFields::all_kept(),
    {
        MetadataFields {
            icc: IccRetention::Keep,
            exif: ExifPolicy::KEEP_ALL(),
            xmp: Retention::Keep,
            cicp: Retention::Keep,
            hdr: Retention::Keep,
        }
    }

    /// Discard every field.
    #[allow(non_snake_case)]
    pub fn DISCARD_ALL() -> (r: Self)
        ensures
            r.icc == IccRetention::Drop,
            r.exif == ExifPolicy::uniform(Retention::Discard),
            r.xmp == Retention::Discard,
            r.cicp == Retention::Discard,
            r.hdr == Retention::Discard,
    {
        MetadataFields {
            icc: IccRetention::Drop,
            exif: ExifPolicy::DISCARD_ALL(),
            xmp: Retention::Discard,
            cicp: Retention::Discard,
            hdr: Retention::Discard,
        }
    }

    /// Set ICC retention.
    #[must_use]
    pub fn with_icc(self, r: IccRetention) -> (f: Self)
        ensures
            f == (MetadataFields { icc: r, ..self }),
    {
        MetadataFields { icc: r, ..self }
    }

    /// Set the EXIF policy.
    #[must_use]
    pub fn with_exif(self, p: ExifPolicy) -> (f: Self)
        ensures
            f == (MetadataFields { exif: p, ..self }),
    {
        MetadataFields { exif: p, ..self }
    }

    /// Set XMP retention.
    #[must_use]
    pub fn with_xmp(self, r: Retention) -> (f: Self)
        ensures
            f == (MetadataFields { xmp: r, ..self }),
    {
        MetadataFields { xmp: r, ..self }
    }

    /// Set CICP retention.
    #[must_use]
    pub fn with_cicp(self, r: Retention) -> (f: Self)
        ensures
            f == (MetadataFields { cicp: r, ..self }),
    {
        MetadataFields { cicp: r, ..self }
    }

    /// Set HDR retention.
    #[must_use]
    pub fn with_hdr(self, r: Retention) -> (f: Self)
        ensures
            f == (MetadataFields { hdr: r, ..self }),
    {
        MetadataFields { hdr: r, ..self }
    }
}

impl MetadataPolicy {
    /// The per-field retention that a policy stands for.
    pub open spec fn resolved(self) -> MetadataFields {
        match self {
            MetadataPolicy::PreserveExact => MetadataFields::all_kept(),
            MetadataPolicy::Preserve => MetadataFields {
                icc: IccRetention::KeepNonSrgb,
                ..MetadataFields::all_kept()
            },
            MetadataPolicy::Web => MetadataFields::color_and(ExifPolicy::attributed_orientation()),
            MetadataPolicy::ColorAndRotation => MetadataFields::color_and(
                ExifPolicy::orientation_only(),
            ),
            MetadataPolicy::Custom(f) => f,
        }
    }

    /// Resolve the policy to its per-field retention.
    #[must_use]
    pub fn fields(&self) -> (r: MetadataFields)
        ensures
            r == self.resolved(),
    {
        match self {
            MetadataPolicy::PreserveExact => MetadataFields::KEEP_ALL(),
            MetadataPolicy::Preserve => MetadataFields::KEEP_ALL().with_icc(
                IccRetention::KeepNonSrgb,
            ),
            MetadataPolicy::Web => MetadataFields {
                icc: IccRetention::KeepNonSrgb,
                exif: ExifPolicy::ATTRIBUTED_ORIENTATION(),
                xmp: Retention::Discard,
                cicp: Retention::Keep,
                hdr: Retention::Keep,
            },
            MetadataPolicy::ColorAndRotation => MetadataFields {
                icc: IccRetention::KeepNonSrgb,
                exif: ExifPolicy::ORIENTATION_ONLY(),
                xmp: Retention::Discard,
                cicp: Retention::Keep,
                hdr: Retention::Keep,
            },
            MetadataPolicy::Custom(f) => *f,
        }
    }
}

impl Default for MetadataPolicy {
    fn default() -> (r: Self)
        ensures
            r == MetadataPolicy::Web,
    {
        MetadataPolicy::Web
    }
}

} // verus!
