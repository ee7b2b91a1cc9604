//! Error categories, envelopes and chains of causes.
use std::any::Any;
use zencodec::error::{
    find_cause, recover_codec_error, CategorizedError, CodecError, CodecIoKind, ErrorCategory,
    ImageError, InternalKind, InvalidKind, LimitExceeded, LimitKind, Link, Phrase, PolicyKind,
    RequestError, ResourceError, StopReason, StreamOffset, UnsupportedImageKind,
    UnsupportedOperation,
};

/// A codec's error, with typed causes.
#[derive(Debug)]
enum TestCodecError {
    Limit(LimitExceeded),
    Unsupported(UnsupportedOperation),
    Cancelled(StopReason),
    Malformed(String),
    RejectedByPolicy,
    BadBuffer,
    WrongState,
}

impl Phrase for TestCodecError {
    fn phrase(&self) -> String {
        match self {
            Self::Limit(e) => format!("limit: {e:?}"),
            Self::Unsupported(e) => format!("unsupported: {}", e.phrase()),
            Self::Cancelled(r) => format!("cancelled: {}", r.phrase()),
            Self::Malformed(s) => format!("malformed: {s}"),
            Self::RejectedByPolicy => "rejected by policy".into(),
            Self::BadBuffer => "bad buffer".into(),
            Self::WrongState => "wrong state".into(),
        }
    }
}

impl CategorizedError for TestCodecError {
    fn codec_name(&self) -> Option<&'static str> {
        Some("test-codec")
    }

    fn category(&self) -> ErrorCategory {
        match self {
            Self::Limit(e) => e.category(),
            Self::Unsupported(e) => e.category(),
            Self::Cancelled(r) => r.category(),
            Self::Malformed(_) => ErrorCategory::Image(ImageError::Malformed),
            Self::RejectedByPolicy => ErrorCategory::Policy(PolicyKind::Decode),
            Self::BadBuffer => ErrorCategory::Request(RequestError::Invalid(InvalidKind::Buffer)),
            Self::WrongState => ErrorCategory::Request(RequestError::Invalid(InvalidKind::State)),
        }
    }
}

/// An error as a chain of causes, itself first.
trait Causes: Any + Sized {
    fn source(&self) -> Option<&dyn Any> {
        None
    }

    fn cause<T: Any>(&self) -> Option<&T> {
        let mut chain: Vec<&dyn Any> = vec![self];
        chain.extend(self.source());
        let links: Vec<Option<&T>> = chain.iter().map(|c| c.downcast_ref::<T>()).collect();
        find_cause(&links)
    }

    fn limit_exceeded(&self) -> Option<&LimitExceeded> {
        self.cause()
    }

    fn unsupported_operation(&self) -> Option<&UnsupportedOperation> {
        self.cause()
    }
}

impl Causes for LimitExceeded {}

impl Causes for TestCodecError {
    fn source(&self) -> Option<&dyn Any> {
        match self {
            Self::Limit(e) => Some(e),
            Self::Unsupported(e) => Some(e),
            _ => None,
        }
    }
}

#[test]
fn ext_limit_exceeded_direct() {
    let err = LimitExceeded::Width { actual: 5000, max: 4096 };
    assert_eq!(err.limit_exceeded(), Some(&err));
}

#[test]
fn ext_limit_exceeded_through_source_chain() {
    let inner = LimitExceeded::Pixels { actual: 100_000_000, max: 50_000_000 };
    let err = TestCodecError::Limit(inner.clone());
    assert_eq!(err.limit_exceeded(), Some(&inner));
}

#[test]
fn ext_unsupported_through_source_chain() {
    let err = TestCodecError::Unsupported(UnsupportedOperation::AnimationEncode);
    assert_eq!(err.unsupported_operation(), Some(&UnsupportedOperation::AnimationEncode));
}

#[test]
fn ext_returns_none_when_absent() {
    let err = TestCodecError::Malformed("something else".into());
    assert!(err.limit_exceeded().is_none());
    assert!(err.unsupported_operation().is_none());
}

#[test]
fn ext_find_cause_generic() {
    let err = TestCodecError::Unsupported(UnsupportedOperation::DecodeInto);
    let found: Option<&UnsupportedOperation> = err.cause();
    assert_eq!(found, Some(&UnsupportedOperation::DecodeInto));
}

#[test]
fn find_cause_free_fn() {
    let err = LimitExceeded::Width { actual: 5000, max: 4096 };
    let found = find_cause::<LimitExceeded>(&[Some(&err)]);
    assert_eq!(found, Some(&err));
}

#[test]
fn category_maps_each_codec_variant() {
    assert_eq!(
        TestCodecError::Malformed("x".into()).category(),
        ErrorCategory::Image(ImageError::Malformed)
    );
    assert_eq!(
        TestCodecError::RejectedByPolicy.category(),
        ErrorCategory::Policy(PolicyKind::Decode)
    );
    assert_eq!(
        TestCodecError::BadBuffer.category(),
        ErrorCategory::Request(RequestError::Invalid(InvalidKind::Buffer))
    );
    assert_eq!(
        TestCodecError::WrongState.category(),
        ErrorCategory::Request(RequestError::Invalid(InvalidKind::State))
    );
    assert_eq!(
        TestCodecError::Unsupported(UnsupportedOperation::AnimationEncode).category(),
        ErrorCategory::Request(RequestError::Unsupported(UnsupportedOperation::AnimationEncode))
    );
    assert_eq!(
        TestCodecError::Cancelled(StopReason::Cancelled).category(),
        ErrorCategory::Lifecycle(StopReason::Cancelled)
    );
    assert_eq!(
        TestCodecError::Cancelled(StopReason::TimedOut).category(),
        ErrorCategory::Lifecycle(StopReason::TimedOut)
    );
    assert_eq!(
        TestCodecError::Limit(LimitExceeded::Pixels { actual: 9, max: 4 }).category(),
        ErrorCategory::Resource(ResourceError::Limits(LimitKind::Pixels))
    );
}

#[test]
fn zencodec_cause_types_categorize() {
    assert_eq!(
        StopReason::Cancelled.category(),
        ErrorCategory::Lifecycle(StopReason::Cancelled)
    );
    assert_eq!(
        StopReason::TimedOut.category(),
        ErrorCategory::Lifecycle(StopReason::TimedOut)
    );
    assert_eq!(
        UnsupportedOperation::AnimationDecode.category(),
        ErrorCategory::Request(RequestError::Unsupported(UnsupportedOperation::AnimationDecode))
    );
    assert_eq!(
        UnsupportedOperation::PixelFormat.category(),
        ErrorCategory::Request(RequestError::Unsupported(UnsupportedOperation::PixelFormat))
    );
    assert_eq!(
        LimitExceeded::Memory { actual: 2, max: 1 }.category(),
        ErrorCategory::Resource(ResourceError::Limits(LimitKind::Memory))
    );
}

#[test]
fn from_native_captures_category_and_codec() {
    let e = CodecError::from_native(TestCodecError::Malformed("bad".into()));
    assert_eq!(e.category(), ErrorCategory::Image(ImageError::Malformed));
    assert_eq!(e.codec(), Some("test-codec"));
    assert!(e.detail().is_some());
    assert_eq!(e.phrase(), "test-codec: malformed: bad");
    let e2 = CodecError::from_parts(
        Some("zenjpeg"),
        ErrorCategory::Io(CodecIoKind::opaque()),
        TestCodecError::Malformed("x".into()),
    );
    assert_eq!(e2.category(), ErrorCategory::Io(CodecIoKind::opaque()));
    assert_eq!(e2.codec(), Some("zenjpeg"));
}

#[test]
fn codec_error_new_is_detail_free() {
    let e: CodecError<TestCodecError> =
        CodecError::new(Some("zenpng"), ErrorCategory::Image(ImageError::Malformed));
    assert_eq!(e.category(), ErrorCategory::Image(ImageError::Malformed));
    assert_eq!(e.codec(), Some("zenpng"));
    assert!(e.detail().is_none());
    assert_eq!(e.phrase(), "zenpng: malformed image");
}

#[test]
fn error_types_stay_small() {
    let word = std::mem::size_of::<usize>();
    assert!(
        std::mem::size_of::<CodecError<TestCodecError>>() <= word,
        "CodecError = {} bytes (expected <= {})",
        std::mem::size_of::<CodecError<TestCodecError>>(),
        word
    );
    assert!(
        std::mem::size_of::<whereat::At<CodecError<TestCodecError>>>() <= 2 * word,
        "At<CodecError> = {} bytes (expected <= {})",
        std::mem::size_of::<whereat::At<CodecError<TestCodecError>>>(),
        2 * word
    );
    assert!(
        std::mem::size_of::<Result<(), whereat::At<CodecError<TestCodecError>>>>() <= 2 * word,
        "Result<(), At<CodecError>> = {} bytes (expected <= {})",
        std::mem::size_of::<Result<(), whereat::At<CodecError<TestCodecError>>>>(),
        2 * word
    );
}

#[test]
fn io_kind_variant_is_portable_and_carries_kind_under_std() {
    let cat = ErrorCategory::Io(CodecIoKind::opaque());
    assert!(matches!(cat, ErrorCategory::Io(_)));
    let k = CodecIoKind::from(std::io::ErrorKind::UnexpectedEof);
    assert_eq!(k.kind(), Some(std::io::ErrorKind::UnexpectedEof));
    assert_eq!(CodecIoKind::opaque().kind(), None);
}

#[test]
fn with_codec_stamps_or_clears_the_name() {
    let e = CodecError::from_parts(
        None,
        ErrorCategory::Internal(InternalKind::Bug),
        TestCodecError::Malformed("x".into()),
    );
    assert_eq!(e.codec(), None);
    let stamped = e.with_codec(Some("zenjpeg"));
    assert_eq!(stamped.codec(), Some("zenjpeg"));
    assert_eq!(stamped.with_codec(None).codec(), None);
}

#[test]
fn recovery_prefers_located_envelopes() {
    assert_eq!(recover_codec_error(&[]), None);
    assert_eq!(recover_codec_error(&[Link::Other, Link::Other]), None);
    assert_eq!(recover_codec_error(&[Link::Bare, Link::Other, Link::Located]), Some(2));
    assert_eq!(recover_codec_error(&[Link::BoxedBare, Link::Bare]), Some(1));
    for link in [Link::Located, Link::Bare, Link::BoxedLocated, Link::LocatedBoxed, Link::BoxedBare] {
        assert_eq!(recover_codec_error(&[Link::Other, link, link]), Some(1));
    }
}

#[test]
fn causes_are_found_from_the_outside_in() {
    let (a, b) = (1u8, 2u8);
    assert_eq!(find_cause(&[None, Some(&a), Some(&b)]), Some(&a));
    assert_eq!(find_cause::<u8>(&[None, None]), None);
}

#[test]
fn lifts_keep_what_they_lift() {
    assert_eq!(
        ErrorCategory::from(ImageError::UnexpectedEof),
        ErrorCategory::Image(ImageError::UnexpectedEof)
    );
    assert_eq!(
        ErrorCategory::from(LimitKind::Width),
        ErrorCategory::Resource(ResourceError::Limits(LimitKind::Width))
    );
    assert_eq!(
        ErrorCategory::from(StopReason::TimedOut),
        ErrorCategory::Lifecycle(StopReason::TimedOut)
    );
    assert_eq!(LimitExceeded::Memory { actual: 2, max: 1 }.kind(), LimitKind::Memory);
}

#[test]
fn offsets_are_written_in_decimal() {
    assert_eq!(StreamOffset(0).phrase(), "byte offset 0");
    assert_eq!(StreamOffset(1234).phrase(), "byte offset 1234");
    assert_eq!(StreamOffset(u64::MAX).phrase(), "byte offset 18446744073709551615");
}

#[test]
fn categories_are_put_into_words() {
    let words = |c: ErrorCategory| {
        CodecError::<TestCodecError>::new(None, c).phrase()
    };
    assert_eq!(words(ErrorCategory::Image(ImageError::Malformed)), "malformed image");
    let all = [
        ErrorCategory::Image(ImageError::UnexpectedEof),
        ErrorCategory::Image(ImageError::Unsupported(UnsupportedImageKind::Type)),
        ErrorCategory::Request(RequestError::CmsRequired),
        ErrorCategory::Resource(ResourceError::OutOfMemory),
        ErrorCategory::Policy(PolicyKind::Encode),
        ErrorCategory::Lifecycle(StopReason::Cancelled),
        ErrorCategory::Internal(InternalKind::Dependency),
    ];
    for (i, a) in all.iter().enumerate() {
        assert!(!words(*a).is_empty());
        for b in &all[i + 1..] {
            assert_ne!(words(*a), words(*b));
        }
    }
}
