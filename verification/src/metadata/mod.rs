//! Metadata that travels between decoding and encoding, and what of it is kept.
//!
//! [`Metadata`] carries ICC, EXIF, XMP, CICP, HDR and orientation data; a
//! [`MetadataPolicy`] says what of it a codec may embed.
pub mod carried;
pub mod laws;
pub mod outcomes;
pub mod policy;

pub use carried::Metadata;
pub use policy::{IccRetention, MetadataFields, MetadataPolicy};
