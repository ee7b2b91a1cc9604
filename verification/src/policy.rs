//! What a codec may do on a job.
//!
//! Each flag is allowed, denied or left to the codec's own default.
use crate::color::ColorEmitPolicy;
use crate::exif::policy::{ExifPolicy, Retention};
use crate::metadata::carried::MetadataView;
use crate::metadata::policy::{IccRetention, MetadataFields, MetadataPolicy};
use vstd::prelude::*;

verus! {

/// What a decoder may do. Start from [`strict`](Self::strict) for input that is
/// not trusted.
#[derive(Clone, Copy, Debug, PartialEq, Eq, Structural)]
#[non_exhaustive]
pub struct DecodePolicy {
    /// Extract ICC profiles.
    pub allow_icc: Option<bool>,
    /// Extract EXIF metadata.
    pub allow_exif: Option<bool>,
    /// Extract XMP metadata.
    pub allow_xmp: Option<bool>,
    /// Accept progressive or interlaced images.
    pub allow_progressive: Option<bool>,
    /// Decode more than the first frame.
    pub allow_animation: Option<bool>,
    /// Accept truncated or partly corrupt input.
    pub allow_truncated: Option<bool>,
    /// Reject input that does not conform to its format.
    pub strict: Option<bool>,
}

/// What an encoder emits: which color carrier, which metadata, and a coarse gate
/// per metadata channel.
#[derive(Clone, Copy, Debug, PartialEq, Eq, Structural)]
#[non_exhaustive]
pub struct EncodePolicy {
    /// How color is emitted.
    pub color: Option<ColorEmitPolicy>,
    /// Which metadata is kept.
    pub metadata: Option<MetadataPolicy>,
    /// Embed ICC profiles.
    pub embed_icc: Option<bool>,
    /// Embed EXIF metadata.
    pub embed_exif: Option<bool>,
    /// Embed XMP metadata.
    pub embed_xmp: Option<bool>,
}

/// An explicit value, or the default.
pub open spec fn or_default<T>(v: Option<T>, default: T) -> T {
    match v {
        Some(x) => x,
        None => default,
    }
}

/// An explicit value, or the default.
fn resolve(v: Option<bool>, default: bool) -> (r: bool)
    ensures
        r == or_default(v, default),
{
    match v {
        Some(x) => x,
        None => default,
    }
}

impl DecodePolicy {
    /// The policy with one answer to all allowances, and another on strictness.
    pub open spec fn uniform(allow: Option<bool>, strict: Option<bool>) -> DecodePolicy {
        DecodePolicy {
            allow_icc: allow,
            allow_exif: allow,
            allow_xmp: allow,
            allow_progressive: allow,
            allow_animation: allow,
            allow_truncated: allow,
            strict,
        }
    }

    /// No preferences.
    pub fn none() -> (r: Self)
        ensures
            r == DecodePolicy::uniform(None, None),
    {
        DecodePolicy {
            allow_icc: None,
            allow_exif: None,
            allow_xmp: None,
            allow_progressive: None,
            allow_animation: None,
            allow_truncated: None,
            strict: None,
        }
    }

    /// Allow nothing, and parse strictly.
    pub fn strict() -> (r: Self)
        ensures
            r == DecodePolicy::uniform(Some(false), Some(true)),
    {
        DecodePolicy {
            allow_icc: Some(false),
            allow_exif: Some(false),
            allow_xmp: Some(false),
            allow_progressive: Some(false),
            allow_animation: Some(false),
            allow_truncated: Some(false),
            strict: Some(true),
        }
    }

    /// Allow everything.
    pub fn permissive() -> (r: Self)
        ensures
            r == DecodePolicy::uniform(Some(true), Some(false)),
    {
        DecodePolicy {
            allow_icc: Some(true),
            allow_exif: Some(true),
            allow_xmp: Some(true),
            allow_progressive: Some(true),
            allow_animation: Some(true),
            allow_truncated: Some(true),
            strict: Some(false),
        }
    }

    /// Set ICC profile extraction.
    pub fn with_allow_icc(self, v: bool) -> (r: Self)
        ensures
            r == (DecodePolicy { allow_icc: Some(v), ..self }),
    {
        DecodePolicy { allow_icc: Some(v), ..self }
    }

    /// Set EXIF extraction.
    pub fn with_allow_exif(self, v: bool) -> (r: Self)
        ensures
            r == (DecodePolicy { allow_exif: Some(v), ..self }),
    {
        DecodePolicy { allow_exif: Some(v), ..self }
    }

    /// Set XMP extraction.
    pub fn with_allow_xmp(self, v: bool) -> (r: Self)
        ensures
            r == (DecodePolicy { allow_xmp: Some(v), ..self }),
    {
        DecodePolicy { allow_xmp: Some(v), ..self }
    }

    /// Set progressive images.
    pub fn with_allow_progressive(self, v: bool) -> (r: Self)
        ensures
            r == (DecodePolicy { allow_progressive: Some(v), ..self }),
    {
        DecodePolicy { allow_progressive: Some(v), ..self }
    }

    /// Set animation.
    pub fn with_allow_animation(self, v: bool) -> (r: Self)
        ensures
            r == (DecodePolicy { allow_animation: Some(v), ..self }),
    {
        DecodePolicy { allow_animation: Some(v), ..self }
    }

    /// Set truncated input.
    pub fn with_allow_truncated(self, v: bool) -> (r: Self)
        ensures
            r == (DecodePolicy { allow_truncated: Some(v), ..self }),
    {
        DecodePolicy { allow_truncated: Some(v), ..self }
    }

    /// Set strict parsing.
    pub fn with_strict(self, v: bool) -> (r: Self)
        ensures
            r == (DecodePolicy { strict: Some(v), ..self }),
    {
        DecodePolicy { strict: Some(v), ..self }
    }

    /// The answer on ICC profile extraction, with the codec's default.
    pub fn resolve_icc(&self, default: bool) -> (r: bool)
        ensures
            r == or_default(self.allow_icc, default),
    {
        resolve(self.allow_icc, default)
    }

    /// The answer on EXIF extraction, with the codec's default.
    pub fn resolve_exif(&self, default: bool) -> (r: bool)
        ensures
            r == or_default(self.allow_exif, default),
    {
        resolve(self.allow_exif, default)
    }

    /// The answer on XMP extraction, with the codec's default.
    pub fn resolve_xmp(&self, default: bool) -> (r: bool)
        ensures
            r == or_default(self.allow_xmp, default),
    {
        resolve(self.allow_xmp, default)
    }

    /// The answer on progressive images, with the codec's default.
    pub fn resolve_progressive(&self, default: bool) -> (r: bool)
        ensures
            r == or_default(self.allow_progressive, default),
    {
        resolve(self.allow_progressive, default)
    }

    /// The answer on animation, with the codec's default.
    pub fn resolve_animation(&self, default: bool) -> (r: bool)
        ensures
            r == or_default(self.allow_animation, default),
    {
        resolve(self.allow_animation, default)
    }

    /// The answer on truncated input, with the codec's default.
    pub fn resolve_truncated(&self, default: bool) -> (r: bool)
        ensures
            r == or_default(self.allow_truncated, default),
    {
        resolve(self.allow_truncated, default)
    }

    /// The answer on strict parsing, with the codec's default.
    pub fn resolve_strict(&self, default: bool) -> (r: bool)
        ensures
            r == or_default(self.strict, default),
    {
        resolve(self.strict, default)
    }
}

impl Default for DecodePolicy {
    fn default() -> (r: Self)
        ensures
            r == DecodePolicy::uniform(None, None),
    {
        DecodePolicy::none()
    }
}

impl EncodePolicy {
    /// The policy that keeps the metadata of `metadata` and has one answer for
    /// all channels.
    pub open spec fn uniform(
        metadata: Option<MetadataPolicy>,
        embed: Option<bool>,
    ) -> EncodePolicy {
        EncodePolicy {
            color: None,
            metadata,
            embed_icc: embed,
            embed_exif: embed,
            embed_xmp: embed,
        }
    }

    /// The fields of a policy that discards everything.
    pub open spec fn nothing() -> MetadataFields {
        MetadataFields {
            icc: IccRetention::Drop,
            exif: ExifPolicy::uniform(Retention::Discard),
            xmp: Retention::Discard,
            cicp: Retention::Discard,
            hdr: Retention::Discard,
        }
    }

    /// No preferences.
    pub fn none() -> (r: Self)
        ensures
            r == EncodePolicy::uniform(None, None),
    {
        EncodePolicy {
            color: None,
            metadata: None,
            embed_icc: None,
            embed_exif: None,
            embed_xmp: None,
        }
    }

    /// Strip all metadata: by the metadata policy, which is always honored, and
    /// by every channel's gate.
    pub fn strip_all() -> (r: Self)
        ensures
            r == EncodePolicy::uniform(
                Some(MetadataPolicy::Custom(EncodePolicy::nothing())),
                Some(false),
            ),
    {
        EncodePolicy {
            color: None,
            metadata: Some(MetadataPolicy::Custom(MetadataFields::DISCARD_ALL())),
            embed_icc: Some(false),
            embed_exif: Some(false),
            embed_xmp: Some(false),
        }
    }

    /// Preserve all metadata.
    pub fn preserve_all() -> (r: Self)
        ensures
            r == EncodePolicy::uniform(Some(MetadataPolicy::PreserveExact), Some(true)),
    {
        EncodePolicy {
            color: None,
            metadata: Some(MetadataPolicy::PreserveExact),
            embed_icc: Some(true),
            embed_exif: Some(true),
            embed_xmp: Some(true),
        }
    }

    /// Set how color is emitted.
    pub fn with_color(self, policy: ColorEmitPolicy) -> (r: Self)
        ensures
            r == (EncodePolicy { color: Some(policy), ..self }),
    {
        EncodePolicy { color: Some(policy), ..self }
    }

    /// Set which metadata is kept.
    pub fn with_metadata_policy(self, policy: MetadataPolicy) -> (r: Self)
        ensures
            r == (EncodePolicy { metadata: Some(policy), ..self }),
    {
        EncodePolicy { metadata: Some(policy), ..self }
    }

    /// How color is emitted, with the codec's default.
    pub fn resolve_color(&self, default: ColorEmitPolicy) -> (r: ColorEmitPolicy)
        ensures
            r == or_default(self.color, default),
    {
        match self.color {
            Some(p) => p,
            None => default,
        }
    }

    /// Which metadata is kept, with the codec's default.
    pub fn resolve_metadata(&self, default: MetadataPolicy) -> (r: MetadataPolicy)
        ensures
            r == or_default(self.metadata, default),
    {
        match self.metadata {
            Some(p) => p,
            None => default,
        }
    }

    /// Set ICC embedding.
    pub fn with_embed_icc(self, v: bool) -> (r: Self)
        ensures
            r == (EncodePolicy { embed_icc: Some(v), ..self }),
    {
        EncodePolicy { embed_icc: Some(v), ..self }
    }

    /// Set EXIF embedding.
    pub fn with_embed_exif(self, v: bool) -> (r: Self)
        ensures
            r == (EncodePolicy { embed_exif: Some(v), ..self }),
    {
        EncodePolicy { embed_exif: Some(v), ..self }
    }

    /// Set XMP embedding.
    pub fn with_embed_xmp(self, v: bool) -> (r: Self)
        ensures
            r == (EncodePolicy { embed_xmp: Some(v), ..self }),
    {
        EncodePolicy { embed_xmp: Some(v), ..self }
    }

    /// The answer on ICC embedding, with the codec's default.
    pub fn resolve_icc(&self, default: bool) -> (r: bool)
        ensures
            r == or_default(self.embed_icc, default),
    {
        resolve(self.embed_icc, default)
    }

    /// The answer on EXIF embedding, with the codec's default.
    pub fn resolve_exif(&self, default: bool) -> (r: bool)
        ensures
            r == or_default(self.embed_exif, default),
    {
        resolve(self.embed_exif, default)
    }

    /// The answer on XMP embedding, with the codec's default.
    pub fn resolve_xmp(&self, default: bool) -> (r: bool)
        ensures
            r == or_default(self.embed_xmp, default),
    {
        resolve(self.embed_xmp, default)
    }
}

impl Default for EncodePolicy {
    fn default() -> (r: Self)
        ensures
            r == EncodePolicy::uniform(None, None),
    {
        EncodePolicy::none()
    }
}

/// Stripping all metadata leaves none: filtered by that policy, metadata is
/// empty, whatever it held.
pub proof fn law_strip_all_leaves_nothing(m: MetadataView)
    ensures
        m.filtered(MetadataPolicy::Custom(EncodePolicy::nothing())) == (MetadataView {
            policy: MetadataPolicy::PreserveExact,
            ..MetadataView::empty()
        }),
{
}

/// An explicit value is the answer whatever the default, and without one the
/// default is.
pub proof fn law_explicit_wins<T>(x: T, default: T)
    ensures
        or_default(Some(x), default) == x,
        or_default(None, default) == default,
{
}

/// A policy with one answer gives it to every question, and the other to
/// strictness.
pub proof fn law_uniform_answers(allow: Option<bool>, strict: Option<bool>)
    ensures
        ({
            let p = DecodePolicy::uniform(allow, strict);
            &&& p.allow_icc == allow
            &&& p.allow_exif == allow
            &&& p.allow_xmp == allow
            &&& p.allow_progressive == allow
            &&& p.allow_animation == allow
            &&& p.allow_truncated == allow
            &&& p.strict == strict
        }),
{
}

/// A policy with one answer for all channels leaves color to the codec.
pub proof fn law_uniform_embedding(metadata: Option<MetadataPolicy>, embed: Option<bool>)
    ensures
        ({
            let p = EncodePolicy::uniform(metadata, embed);
            &&& p.color is None
            &&& p.metadata == metadata
            &&& p.embed_icc == embed
            &&& p.embed_exif == embed
            &&& p.embed_xmp == embed
        }),
{
}

/// Nothing is nothing: what discards everything leaves no field of any metadata.
pub proof fn law_nothing_is_left(m: MetadataView)
    ensures
        ({
            let r = m.filtered(MetadataPolicy::Custom(EncodePolicy::nothing()));
            &&& r.icc_profile is None
            &&& r.exif is None
            &&& r.xmp is None
            &&& r.cicp is None
            &&& r.content_light_level is None
            &&& r.mastering_display is None
            &&& r.orientation == crate::orientation::Orientation::Identity
        }),
{
}

} // verus!
