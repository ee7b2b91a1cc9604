//! What errors say.
use super::category::{
    ErrorCategory, ImageError, InternalKind, InvalidKind, LimitKind, PolicyKind, RequestError,
    ResourceError, StopReason, UnsupportedImageKind, UnsupportedOperation,
};
use vstd::prelude::*;
use vstd::string::StringExecFns;

verus! {

/// An error that can be put into words.
pub trait Phrase {
    /// The words. An implementation says here which they are.
    open spec fn words(&self) -> Seq<char> {
        arbitrary()
    }

    /// The error in words.
    fn phrase(&self) -> (r: String)
        ensures
            r@ == self.words(),
    ;
}

/// An owned text.
fn owned(s: &str) -> (r: String)
    ensures
        r@ == s@,
{
    String::from_str(s)
}

impl Phrase for PolicyKind {
    open spec fn words(&self) -> Seq<char> {
        match self {
            PolicyKind::Decode => "rejected by decode policy"@,
            PolicyKind::Encode => "rejected by encode policy"@,
        }
    }

    fn phrase(&self) -> (r: String) {
        match self {
            PolicyKind::Decode => owned("rejected by decode policy"),
            PolicyKind::Encode => owned("rejected by encode policy"),
        }
    }
}

impl Phrase for InternalKind {
    open spec fn words(&self) -> Seq<char> {
        match self {
            InternalKind::Bug => "internal error (bug)"@,
            InternalKind::Dependency => "internal error (unclassified dependency failure)"@,
        }
    }

    fn phrase(&self) -> (r: String) {
        match self {
            InternalKind::Bug => owned("internal error (bug)"),
            InternalKind::Dependency => owned("internal error (unclassified dependency failure)"),
        }
    }
}

impl Phrase for ImageError {
    open spec fn words(&self) -> Seq<char> {
        match self {
            ImageError::Malformed => "malformed image"@,
            ImageError::UnexpectedEof => "unexpected end of input"@,
            ImageError::Unsupported(UnsupportedImageKind::Type) => "unsupported image type"@,
            ImageError::Unsupported(UnsupportedImageKind::Feature) => "unsupported image feature"@,
        }
    }

    fn phrase(&self) -> (r: String) {
        match self {
            ImageError::Malformed => owned("malformed image"),
            ImageError::UnexpectedEof => owned("unexpected end of input"),
            ImageError::Unsupported(UnsupportedImageKind::Type) => owned("unsupported image type"),
            ImageError::Unsupported(UnsupportedImageKind::Feature) => owned(
                "unsupported image feature",
            ),
        }
    }
}

impl Phrase for UnsupportedOperation {
    open spec fn words(&self) -> Seq<char> {
        match self {
            UnsupportedOperation::AnimationDecode => "unsupported operation: animation decode"@,
            UnsupportedOperation::AnimationEncode => "unsupported operation: animation encode"@,
            UnsupportedOperation::RowLevelDecode => "unsupported operation: row-level decode"@,
            UnsupportedOperation::DecodeInto => "unsupported operation: decode into"@,
            UnsupportedOperation::PixelFormat => "no acceptable pixel format"@,
        }
    }

    fn phrase(&self) -> (r: String) {
        match self {
            UnsupportedOperation::AnimationDecode => owned(
                "unsupported operation: animation decode",
            ),
            UnsupportedOperation::AnimationEncode => owned(
                "unsupported operation: animation encode",
            ),
            UnsupportedOperation::RowLevelDecode => owned(
                "unsupported operation: row-level decode",
            ),
            UnsupportedOperation::DecodeInto => owned("unsupported operation: decode into"),
            UnsupportedOperation::PixelFormat => owned("no acceptable pixel format"),
        }
    }
}

impl Phrase for RequestError {
    open spec fn words(&self) -> Seq<char> {
        match self {
            RequestError::Invalid(InvalidKind::Parameters) => "invalid parameters"@,
            RequestError::Invalid(InvalidKind::Buffer) => "invalid pixel buffer"@,
            RequestError::Invalid(InvalidKind::State) => "invalid state"@,
            RequestError::Unsupported(op) => op.words(),
            RequestError::CmsRequired => "colour-management transform required"@,
        }
    }

    fn phrase(&self) -> (r: String) {
        match self {
            RequestError::Invalid(InvalidKind::Parameters) => owned("invalid parameters"),
            RequestError::Invalid(InvalidKind::Buffer) => owned("invalid pixel buffer"),
            RequestError::Invalid(InvalidKind::State) => owned("invalid state"),
            RequestError::Unsupported(op) => op.phrase(),
            RequestError::CmsRequired => owned("colour-management transform required"),
        }
    }
}

impl Phrase for ResourceError {
    open spec fn words(&self) -> Seq<char> {
        match self {
            ResourceError::Limits(LimitKind::Width) => "resource limit exceeded (Width)"@,
            ResourceError::Limits(LimitKind::Pixels) => "resource limit exceeded (Pixels)"@,
            ResourceError::Limits(LimitKind::Memory) => "resource limit exceeded (Memory)"@,
            ResourceError::OutOfMemory => "out of memory"@,
        }
    }

    fn phrase(&self) -> (r: String) {
        match self {
            ResourceError::Limits(LimitKind::Width) => owned("resource limit exceeded (Width)"),
            ResourceError::Limits(LimitKind::Pixels) => owned("resource limit exceeded (Pixels)"),
            ResourceError::Limits(LimitKind::Memory) => owned("resource limit exceeded (Memory)"),
            ResourceError::OutOfMemory => owned("out of memory"),
        }
    }
}

impl Phrase for StopReason {
    open spec fn words(&self) -> Seq<char> {
        match self {
            StopReason::Cancelled => "operation cancelled"@,
            StopReason::TimedOut => "operation timed out"@,
        }
    }

    fn phrase(&self) -> (r: String) {
        match self {
            StopReason::Cancelled => owned("operation cancelled"),
            StopReason::TimedOut => owned("operation timed out"),
        }
    }
}

impl Phrase for ErrorCategory {
    open spec fn words(&self) -> Seq<char> {
        match self {
            ErrorCategory::Image(e) => e.words(),
            ErrorCategory::Request(e) => e.words(),
            ErrorCategory::Resource(e) => e.words(),
            ErrorCategory::Policy(k) => k.words(),
            ErrorCategory::Lifecycle(s) => s.words(),
            ErrorCategory::Io(_) => "I/O error"@,
            ErrorCategory::Internal(k) => k.words(),
        }
    }

    fn phrase(&self) -> (r: String) {
        match self {
            ErrorCategory::Image(e) => e.phrase(),
            ErrorCategory::Request(e) => e.phrase(),
            ErrorCategory::Resource(e) => e.phrase(),
            ErrorCategory::Policy(k) => k.phrase(),
            ErrorCategory::Lifecycle(s) => s.phrase(),
            ErrorCategory::Io(_) => owned("I/O error"),
            ErrorCategory::Internal(k) => k.phrase(),
        }
    }
}

} // verus!
