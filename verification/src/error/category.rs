//! Error categories.
use vstd::prelude::*;

verus! {

/// `std::io::ErrorKind`, carried through unread.
#[verifier::external_type_specification]
#[verifier::external_body]
pub struct ExErrorKind(std::io::ErrorKind);

/// Where an error comes from.
#[derive(Clone, Copy, Debug, PartialEq, Eq, Hash)]
#[non_exhaustive]
pub enum ErrorCategory {
    /// The image's bytes.
    Image(ImageError),
    /// The caller's request.
    Request(RequestError),
    /// A limit or exhausted resource.
    Resource(ResourceError),
    /// A policy that refused valid input.
    Policy(PolicyKind),
    /// A stop that was asked for.
    Lifecycle(StopReason),
    /// Input or output.
    Io(CodecIoKind),
    /// The codec itself.
    Internal(InternalKind),
}

/// Whose policy refused.
#[derive(Clone, Copy, Debug, PartialEq, Eq, Hash, Structural)]
#[non_exhaustive]
pub enum PolicyKind {
    /// The decode policy.
    Decode,
    /// The encode policy.
    Encode,
}

/// What kind of internal failure.
#[derive(Clone, Copy, Debug, PartialEq, Eq, Hash, Structural)]
#[non_exhaustive]
pub enum InternalKind {
    /// A defect of the codec.
    Bug,
    /// An error of a dependency that is not classified.
    Dependency,
}

/// What is wrong with the image's bytes.
#[derive(Clone, Copy, Debug, PartialEq, Eq, Hash, Structural)]
#[non_exhaustive]
pub enum ImageError {
    /// They are corrupt.
    Malformed,
    /// They end too soon.
    UnexpectedEof,
    /// They are well-formed, but not handled.
    Unsupported(UnsupportedImageKind),
}

/// What of an image is not handled.
#[derive(Clone, Copy, Debug, PartialEq, Eq, Hash, Structural)]
#[non_exhaustive]
pub enum UnsupportedImageKind {
    /// The format or profile.
    Type,
    /// A feature of the format.
    Feature,
}

/// What is wrong with the request.
#[derive(Clone, Copy, Debug, PartialEq, Eq, Hash, Structural)]
#[non_exhaustive]
pub enum RequestError {
    /// It is malformed.
    Invalid(InvalidKind),
    /// It is well-formed, but not supported.
    Unsupported(UnsupportedOperation),
    /// It needs a color transform that the caller must supply.
    CmsRequired,
}

/// What of a request is malformed.
#[derive(Clone, Copy, Debug, PartialEq, Eq, Hash, Structural)]
#[non_exhaustive]
pub enum InvalidKind {
    /// Parameters.
    Parameters,
    /// The layout of a pixel buffer.
    Buffer,
    /// The sequence of calls.
    State,
}

/// Which resource is lacking.
#[derive(Clone, Copy, Debug, PartialEq, Eq, Hash, Structural)]
#[non_exhaustive]
pub enum ResourceError {
    /// A configured limit was exceeded.
    Limits(LimitKind),
    /// An allocation failed.
    OutOfMemory,
}

/// Which limit was exceeded.
#[derive(Clone, Copy, Debug, PartialEq, Eq, Hash, Structural)]
#[non_exhaustive]
pub enum LimitKind {
    Width,
    Pixels,
    Memory,
}

/// A limit that was exceeded, with the value and the limit.
#[derive(Clone, Copy, Debug, PartialEq, Eq, Hash, Structural)]
#[non_exhaustive]
pub enum LimitExceeded {
    Width { actual: u64, max: u64 },
    Pixels { actual: u64, max: u64 },
    Memory { actual: u64, max: u64 },
}

/// An operation that a codec does not support.
#[derive(Clone, Copy, Debug, PartialEq, Eq, Hash, Structural)]
#[non_exhaustive]
pub enum UnsupportedOperation {
    AnimationDecode,
    AnimationEncode,
    RowLevelDecode,
    DecodeInto,
    /// No pixel format is acceptable to both sides.
    PixelFormat,
}

/// Why an operation was stopped.
#[derive(Clone, Copy, Debug, PartialEq, Eq, Hash, Structural)]
#[non_exhaustive]
pub enum StopReason {
    /// The caller cancelled it.
    Cancelled,
    /// It ran past its deadline.
    TimedOut,
}

/// The kind of an input or output failure, if it is known.
#[derive(Clone, Copy, Debug, PartialEq, Eq, Hash)]
pub struct CodecIoKind {
    kind: Option<std::io::ErrorKind>,
}

/// The kind that was recorded.
impl View for CodecIoKind {
    type V = Option<std::io::ErrorKind>;

    closed spec fn view(&self) -> Option<std::io::ErrorKind> {
        self.kind
    }
}

impl CodecIoKind {
    /// A failure of unknown kind.
    pub fn opaque() -> (r: Self)
        ensures
            r@ is None,
    {
        CodecIoKind { kind: None }
    }

    /// The kind, if it is known.
    pub fn kind(&self) -> (r: Option<std::io::ErrorKind>)
        ensures
            r == self@,
    {
        self.kind
    }
}

/// A failure of a known kind.
impl From<std::io::ErrorKind> for CodecIoKind {
    fn from(kind: std::io::ErrorKind) -> (r: Self)
        ensures
            r@ == Some(kind),
    {
        CodecIoKind { kind: Some(kind) }
    }
}

impl vstd::std_specs::convert::FromSpecImpl<std::io::ErrorKind> for CodecIoKind {
    open spec fn obeys_from_spec() -> bool {
        true
    }

    closed spec fn from_spec(kind: std::io::ErrorKind) -> Self {
        CodecIoKind { kind: Some(kind) }
    }
}

impl Default for CodecIoKind {
    fn default() -> (r: Self)
        ensures
            r@ is None,
    {
        CodecIoKind::opaque()
    }
}

impl LimitExceeded {
    /// Which limit it is.
    pub open spec fn limit(self) -> LimitKind {
        match self {
            LimitExceeded::Width { .. } => LimitKind::Width,
            LimitExceeded::Pixels { .. } => LimitKind::Pixels,
            LimitExceeded::Memory { .. } => LimitKind::Memory,
        }
    }

    /// Which limit it is.
    pub fn kind(&self) -> (r: LimitKind)
        ensures
            r == self.limit(),
    {
        match self {
            LimitExceeded::Width { .. } => LimitKind::Width,
            LimitExceeded::Pixels { .. } => LimitKind::Pixels,
            LimitExceeded::Memory { .. } => LimitKind::Memory,
        }
    }
}

// ── Lifting into a category ─────────────────────────────────────────────────

impl From<ImageError> for ErrorCategory {
    fn from(x: ImageError) -> (r: Self) {
        ErrorCategory::Image(x)
    }
}

impl vstd::std_specs::convert::FromSpecImpl<ImageError> for ErrorCategory {
    open spec fn obeys_from_spec() -> bool {
        true
    }

    open spec fn from_spec(x: ImageError) -> ErrorCategory {
        ErrorCategory::Image(x)
    }
}

impl From<RequestError> for ErrorCategory {
    fn from(x: RequestError) -> (r: Self) {
        ErrorCategory::Request(x)
    }
}

impl vstd::std_specs::convert::FromSpecImpl<RequestError> for ErrorCategory {
    open spec fn obeys_from_spec() -> bool {
        true
    }

    open spec fn from_spec(x: RequestError) -> ErrorCategory {
        ErrorCategory::Request(x)
    }
}

impl From<ResourceError> for ErrorCategory {
    fn from(x: ResourceError) -> (r: Self) {
        ErrorCategory::Resource(x)
    }
}

impl vstd::std_specs::convert::FromSpecImpl<ResourceError> for ErrorCategory {
    open spec fn obeys_from_spec() -> bool {
        true
    }

    open spec fn from_spec(x: ResourceError) -> ErrorCategory {
        ErrorCategory::Resource(x)
    }
}

impl From<StopReason> for ErrorCategory {
    fn from(x: StopReason) -> (r: Self) {
        ErrorCategory::Lifecycle(x)
    }
}

impl vstd::std_specs::convert::FromSpecImpl<StopReason> for ErrorCategory {
    open spec fn obeys_from_spec() -> bool {
        true
    }

    open spec fn from_spec(x: StopReason) -> ErrorCategory {
        ErrorCategory::Lifecycle(x)
    }
}

impl From<UnsupportedImageKind> for ErrorCategory {
    fn from(x: UnsupportedImageKind) -> (r: Self) {
        ErrorCategory::Image(ImageError::Unsupported(x))
    }
}

impl vstd::std_specs::convert::FromSpecImpl<UnsupportedImageKind> for ErrorCategory {
    open spec fn obeys_from_spec() -> bool {
        true
    }

    open spec fn from_spec(x: UnsupportedImageKind) -> ErrorCategory {
        ErrorCategory::Image(ImageError::Unsupported(x))
    }
}

impl From<InvalidKind> for ErrorCategory {
    fn from(x: InvalidKind) -> (r: Self) {
        ErrorCategory::Request(RequestError::Invalid(x))
    }
}

impl vstd::std_specs::convert::FromSpecImpl<InvalidKind> for ErrorCategory {
    open spec fn obeys_from_spec() -> bool {
        true
    }

    open spec fn from_spec(x: InvalidKind) -> ErrorCategory {
        ErrorCategory::Request(RequestError::Invalid(x))
    }
}

impl From<PolicyKind> for ErrorCategory {
    fn from(x: PolicyKind) -> (r: Self) {
        ErrorCategory::Policy(x)
    }
}

impl vstd::std_specs::convert::FromSpecImpl<PolicyKind> for ErrorCategory {
    open spec fn obeys_from_spec() -> bool {
        true
    }

    open spec fn from_spec(x: PolicyKind) -> ErrorCategory {
        ErrorCategory::Policy(x)
    }
}

impl From<InternalKind> for ErrorCategory {
    fn from(x: InternalKind) -> (r: Self) {
        ErrorCategory::Internal(x)
    }
}

impl vstd::std_specs::convert::FromSpecImpl<InternalKind> for ErrorCategory {
    open spec fn obeys_from_spec() -> bool {
        true
    }

    open spec fn from_spec(x: InternalKind) -> ErrorCategory {
        ErrorCategory::Internal(x)
    }
}

impl From<LimitKind> for ErrorCategory {
    fn from(x: LimitKind) -> (r: Self) {
        ErrorCategory::Resource(ResourceError::Limits(x))
    }
}

impl vstd::std_specs::convert::FromSpecImpl<LimitKind> for ErrorCategory {
    open spec fn obeys_from_spec() -> bool {
        true
    }

    open spec fn from_spec(x: LimitKind) -> ErrorCategory {
        ErrorCategory::Resource(ResourceError::Limits(x))
    }
}

// ── Errors that know their category ─────────────────────────────────────────

/// An error that knows its category and the codec it comes from.
pub trait CategorizedError {
    /// The codec's name; none for an error that is of no codec. An
    /// implementation says here which it is.
    open spec fn named(&self) -> Option<Seq<char>> {
        arbitrary()
    }

    /// The category. An implementation says here which it is.
    open spec fn categorized(&self) -> ErrorCategory {
        arbitrary()
    }

    /// The codec's name; none for an error that is of no codec.
    fn codec_name(&self) -> (r: Option<&'static str>)
        ensures
            r is Some <==> self.named() is Some,
            r matches Some(s) ==> self.named() == Some(s@),
    ;

    /// The category.
    fn category(&self) -> (r: ErrorCategory)
        ensures
            r == self.categorized(),
    ;
}

impl CategorizedError for StopReason {
    open spec fn named(&self) -> Option<Seq<char>> {
        None
    }

    open spec fn categorized(&self) -> ErrorCategory {
        ErrorCategory::Lifecycle(*self)
    }

    fn codec_name(&self) -> (r: Option<&'static str>) {
        None
    }

    fn category(&self) -> (r: ErrorCategory) {
        ErrorCategory::Lifecycle(*self)
    }
}

impl CategorizedError for UnsupportedOperation {
    open spec fn named(&self) -> Option<Seq<char>> {
        None
    }

    open spec fn categorized(&self) -> ErrorCategory {
        ErrorCategory::Request(RequestError::Unsupported(*self))
    }

    fn codec_name(&self) -> (r: Option<&'static str>) {
        None
    }

    fn category(&self) -> (r: ErrorCategory) {
        ErrorCategory::Request(RequestError::Unsupported(*self))
    }
}

impl CategorizedError for LimitExceeded {
    open spec fn named(&self) -> Option<Seq<char>> {
        None
    }

    open spec fn categorized(&self) -> ErrorCategory {
        ErrorCategory::Resource(ResourceError::Limits(self.limit()))
    }

    fn codec_name(&self) -> (r: Option<&'static str>) {
        None
    }

    fn category(&self) -> (r: ErrorCategory) {
        ErrorCategory::Resource(ResourceError::Limits(self.kind()))
    }
}

} // verus!
