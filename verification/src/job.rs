//! Jobs of encoders.
use crate::metadata::carried::{Metadata, MetadataView};
use crate::metadata::policy::MetadataPolicy;
use crate::policy::EncodePolicy;
use vstd::prelude::*;

verus! {

/// One encode, set up step by step. Codecs implement it.
pub trait EncodeJob: Sized {
    /// The metadata that will be embedded. An implementation says here what it
    /// was given last.
    open spec fn embeds(&self) -> Option<MetadataView> {
        arbitrary()
    }

    /// Embed metadata as it is, with no choice of what is retained.
    /// [`with_metadata_policy`](EncodeJob::with_metadata_policy) makes that choice.
    fn with_metadata(self, meta: Metadata) -> (r: Self)
        ensures
            r.embeds() == Some(meta@),
    ;

    /// Embed what a retention policy leaves of metadata.
    fn with_metadata_policy(self, meta: Metadata, policy: MetadataPolicy) -> (r: Self)
        ensures
            r.embeds() == Some(meta@.filtered(policy)),
    {
        self.with_metadata(meta.filtered(&policy))
    }

    /// Set the encode policy, which may gate what is embedded. Codecs without
    /// policies ignore it.
    fn with_policy(self, _policy: EncodePolicy) -> (r: Self)
        default_ensures
            r == self,
    {
        self
    }

    /// Set the canvas of an animation. Codecs without animation ignore it.
    fn with_canvas_size(self, _width: u32, _height: u32) -> (r: Self)
        ensures
            r.embeds() == self.embeds(),
        default_ensures
            r == self,
    {
        self
    }

    /// Set how often an animation loops: forever if zero, and as the codec
    /// chooses if not given. Codecs without animation ignore it.
    fn with_loop_count(self, _count: Option<u32>) -> (r: Self)
        ensures
            r.embeds() == self.embeds(),
        default_ensures
            r == self,
    {
        self
    }
}

} // verus!
