//! Structured EXIF/TIFF parsing, pruning and serialization.
//!
//! [`Exif::parse`] reads a TIFF blob into a tree whose
//! out-of-line values borrow the source; `to_bytes` writes a tree back in
//! canonical form; `filtered` prunes it by category and [`retain`](fn@retain)
//! applies a policy to a blob.
pub mod authoring;
pub mod canonical;
pub mod codec;
pub mod edit;
pub mod edits;
pub mod ext;
pub mod firstdir;
pub mod in_place;
pub mod kept;
pub mod laws;
pub mod layout;
pub mod model;
pub mod one_pass;
pub mod parsed;
pub mod parts;
pub mod policy;
pub mod provenance;
pub mod pruning;
pub mod reading;
pub mod refill;
pub mod reread;
pub mod reserialize;
pub mod retain;
pub mod retaining;
pub mod roundtrip;
pub mod rewritten;
pub mod sections;
pub mod sorting;
pub mod tags;
pub mod thumb;
pub mod tree;
pub mod whole;
pub mod write;
pub mod written;

pub use codec::ByteOrder;
pub use model::TextEncoding;
pub use policy::{ExifPolicy, Retention};
pub use retain::{retain, retain_reconciled, set_orientation};
pub use tree::{Entry, Exif};
