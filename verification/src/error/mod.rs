//! Codec errors, by category.
//!
//! A codec maps each of its errors to an [`ErrorCategory`]; consumers route on
//! the category without naming the codec's error type. [`CodecError`] carries
//! the category, the codec's name and the codec's own error.
pub mod category;
pub mod envelope;
pub mod laws;
pub mod phrase;
pub mod recovery;

pub use category::{
    CategorizedError, CodecIoKind, ErrorCategory, ImageError, InternalKind, InvalidKind,
    LimitExceeded, LimitKind, PolicyKind, RequestError, ResourceError, StopReason,
    UnsupportedImageKind, UnsupportedOperation,
};
pub use envelope::{CodecError, StreamOffset};
pub use phrase::Phrase;
pub use recovery::{find_cause, recover_codec_error, Link};
