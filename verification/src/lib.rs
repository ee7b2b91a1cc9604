//! Shared types and rules for image codecs.
//!
//! EXIF trees, metadata retention, color signaling, format detection, error
//! categories, estimates and policies, each with a contract that says what it
//! computes.
pub mod bytes;
pub mod capabilities;
pub mod cicp;
pub mod color;
pub mod cost;
pub mod emission;
pub mod error;
pub mod estimate;
pub mod exif;
pub mod extensions;
pub mod fidelity;
pub mod format;
pub mod helpers;
pub mod icc;
pub mod info;
pub mod job;
pub mod metadata;
pub mod metric;
pub mod orientation;
pub mod pixel_format;
pub mod pixels;
pub mod policy;
pub mod search;
pub mod serving;
pub mod set;

pub use orientation::{Orientation, OrientationHint};
