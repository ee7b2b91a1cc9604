//! Image formats: what they are called, what they can do, how they are told
//! apart.
pub mod builtins;
pub mod camera;
pub mod definition;
pub mod names;
pub mod naming;
pub mod recognized;
pub mod registry;
pub mod signatures;
pub mod sniff;
pub mod svg;
pub mod text;
pub mod tga;

pub use definition::{Detect, ImageFormat, ImageFormatDefinition};
pub use registry::ImageFormatRegistry;
