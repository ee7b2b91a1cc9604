//! What holds of errors: where they belong, what they say, which is recovered.
use super::category::{
    CategorizedError, ErrorCategory, ImageError, InternalKind, InvalidKind, LimitExceeded,
    LimitKind, PolicyKind, RequestError, ResourceError, StopReason, UnsupportedImageKind,
    UnsupportedOperation,
};
use super::envelope::{decimal, CodecError, StreamOffset};
use super::phrase::Phrase;
use super::recovery::{
    envelope_order, first_link, lemma_first_link, recovered_from, Link,
};
use vstd::prelude::*;
use vstd::std_specs::convert::FromSpec;

verus! {

// ── Categories ──────────────────────────────────────────────────────────────

/// What an error is lifted into: its own category, and an error of a part of a
/// category that category with the part in it.
pub proof fn law_errors_are_lifted(
    image: ImageError,
    request: RequestError,
    resource: ResourceError,
    stop: StopReason,
    policy: PolicyKind,
    internal: InternalKind,
)
    ensures
        <ErrorCategory as FromSpec<ImageError>>::from_spec(image) == ErrorCategory::Image(image),
        <ErrorCategory as FromSpec<RequestError>>::from_spec(request) == ErrorCategory::Request(
            request,
        ),
        <ErrorCategory as FromSpec<ResourceError>>::from_spec(resource) == ErrorCategory::Resource(
            resource,
        ),
        <ErrorCategory as FromSpec<StopReason>>::from_spec(stop) == ErrorCategory::Lifecycle(stop),
        <ErrorCategory as FromSpec<PolicyKind>>::from_spec(policy) == ErrorCategory::Policy(policy),
        <ErrorCategory as FromSpec<InternalKind>>::from_spec(internal) == ErrorCategory::Internal(
            internal,
        ),
        <ErrorCategory as FromSpec<ImageError>>::obeys_from_spec(),
        <ErrorCategory as FromSpec<RequestError>>::obeys_from_spec(),
        <ErrorCategory as FromSpec<ResourceError>>::obeys_from_spec(),
        <ErrorCategory as FromSpec<StopReason>>::obeys_from_spec(),
        <ErrorCategory as FromSpec<PolicyKind>>::obeys_from_spec(),
        <ErrorCategory as FromSpec<InternalKind>>::obeys_from_spec(),
{
}

/// What a part of a category is lifted into: an image that is not supported, a
/// request that is not valid, a limit that was passed.
pub proof fn law_parts_are_lifted(image: UnsupportedImageKind, request: InvalidKind, limit: LimitKind)
    ensures
        <ErrorCategory as FromSpec<UnsupportedImageKind>>::from_spec(image) == ErrorCategory::Image(
            ImageError::Unsupported(image),
        ),
        <ErrorCategory as FromSpec<InvalidKind>>::from_spec(request) == ErrorCategory::Request(
            RequestError::Invalid(request),
        ),
        <ErrorCategory as FromSpec<LimitKind>>::from_spec(limit) == ErrorCategory::Resource(
            ResourceError::Limits(limit),
        ),
        <ErrorCategory as FromSpec<UnsupportedImageKind>>::obeys_from_spec(),
        <ErrorCategory as FromSpec<InvalidKind>>::obeys_from_spec(),
        <ErrorCategory as FromSpec<LimitKind>>::obeys_from_spec(),
{
}

/// A stop is a matter of the operation's life, an operation that is not supported
/// one of the request, and a limit one of resources; none of them is a codec's.
pub proof fn law_errors_know_their_category(
    stop: StopReason,
    op: UnsupportedOperation,
    actual: u64,
    max: u64,
)
    ensures
        stop.categorized() == ErrorCategory::Lifecycle(stop),
        op.categorized() == ErrorCategory::Request(RequestError::Unsupported(op)),
        (LimitExceeded::Width { actual, max }).categorized() == ErrorCategory::Resource(
            ResourceError::Limits(LimitKind::Width),
        ),
        (LimitExceeded::Pixels { actual, max }).categorized() == ErrorCategory::Resource(
            ResourceError::Limits(LimitKind::Pixels),
        ),
        (LimitExceeded::Memory { actual, max }).categorized() == ErrorCategory::Resource(
            ResourceError::Limits(LimitKind::Memory),
        ),
        stop.named() is None,
        op.named() is None,
        (LimitExceeded::Width { actual, max }).named() is None,
{
}

// ── Recovery ────────────────────────────────────────────────────────────────

/// How much an envelope is preferred, the lower the more: a located one to a bare
/// one, and either to one in a box.
pub open spec fn rank(link: Link) -> int {
    match link {
        Link::Located => 0,
        Link::Bare => 1,
        Link::BoxedLocated => 2,
        Link::LocatedBoxed => 3,
        Link::BoxedBare => 4,
        Link::Other => 5,
    }
}

/// The envelope that is recovered is the best there is, wherever in the chain it
/// stands, and the first of its kind.
pub proof fn law_best_envelope_is_recovered(chain: Seq<Link>, j: int)
    requires
        0 <= j < chain.len(),
        chain[j] != Link::Other,
    ensures
        recovered_from(chain, 0) matches Some(i) && 0 <= i < chain.len() && rank(chain[i]) <= rank(
            chain[j],
        ) && (chain[i] == chain[j] ==> i <= j),
{
    reveal_with_fuel(recovered_from, 6);
    lemma_first_link(chain, Link::Located);
    lemma_first_link(chain, Link::Bare);
    lemma_first_link(chain, Link::BoxedLocated);
    lemma_first_link(chain, Link::LocatedBoxed);
    lemma_first_link(chain, Link::BoxedBare);
    assert(first_link(chain, chain[j]) <= j);
    let order = envelope_order();
    assert(order[0] == Link::Located && order[1] == Link::Bare && order[2] == Link::BoxedLocated
        && order[3] == Link::LocatedBoxed && order[4] == Link::BoxedBare);
}

// ── Words ───────────────────────────────────────────────────────────────────

/// A category says what it holds.
pub proof fn law_category_says_its_error(c: ErrorCategory)
    ensures
        c matches ErrorCategory::Image(e) ==> c.words() == e.words(),
        c matches ErrorCategory::Request(e) ==> c.words() == e.words(),
        c matches ErrorCategory::Resource(e) ==> c.words() == e.words(),
        c matches ErrorCategory::Policy(e) ==> c.words() == e.words(),
        c matches ErrorCategory::Lifecycle(e) ==> c.words() == e.words(),
        c matches ErrorCategory::Internal(e) ==> c.words() == e.words(),
        c is Io ==> c.words() == "I/O error"@,
{
}

/// What errors of images and resources say.
pub proof fn law_words_of_images_and_resources(image: ImageError, resource: ResourceError)
    ensures
        image is Malformed ==> image.words() == "malformed image"@,
        image is UnexpectedEof ==> image.words() == "unexpected end of input"@,
        image == ImageError::Unsupported(UnsupportedImageKind::Type) ==> image.words()
            == "unsupported image type"@,
        image == ImageError::Unsupported(UnsupportedImageKind::Feature) ==> image.words()
            == "unsupported image feature"@,
        resource is OutOfMemory ==> resource.words() == "out of memory"@,
        resource == ResourceError::Limits(LimitKind::Width) ==> resource.words()
            == "resource limit exceeded (Width)"@,
        resource == ResourceError::Limits(LimitKind::Pixels) ==> resource.words()
            == "resource limit exceeded (Pixels)"@,
        resource == ResourceError::Limits(LimitKind::Memory) ==> resource.words()
            == "resource limit exceeded (Memory)"@,
{
}

/// What errors of requests say; an operation that is not supported says so itself.
pub proof fn law_words_of_requests(request: RequestError, op: UnsupportedOperation)
    ensures
        request == RequestError::Invalid(InvalidKind::Parameters) ==> request.words()
            == "invalid parameters"@,
        request == RequestError::Invalid(InvalidKind::Buffer) ==> request.words()
            == "invalid pixel buffer"@,
        request == RequestError::Invalid(InvalidKind::State) ==> request.words()
            == "invalid state"@,
        request == RequestError::Unsupported(op) ==> request.words() == op.words(),
        request is CmsRequired ==> request.words() == "colour-management transform required"@,
        op is AnimationDecode ==> op.words() == "unsupported operation: animation decode"@,
        op is AnimationEncode ==> op.words() == "unsupported operation: animation encode"@,
        op is RowLevelDecode ==> op.words() == "unsupported operation: row-level decode"@,
        op is DecodeInto ==> op.words() == "unsupported operation: decode into"@,
        op is PixelFormat ==> op.words() == "no acceptable pixel format"@,
{
}

/// What stops, policies and faults say.
pub proof fn law_words_of_stops_and_faults(stop: StopReason, policy: PolicyKind, fault: InternalKind)
    ensures
        stop is Cancelled ==> stop.words() == "operation cancelled"@,
        stop is TimedOut ==> stop.words() == "operation timed out"@,
        policy is Decode ==> policy.words() == "rejected by decode policy"@,
        policy is Encode ==> policy.words() == "rejected by encode policy"@,
        fault is Bug ==> fault.words() == "internal error (bug)"@,
        fault is Dependency ==> fault.words()
            == "internal error (unclassified dependency failure)"@,
{
}

/// The value of decimal digits, the first the highest.
pub open spec fn value_of_digits(s: Seq<char>) -> int
    decreases s.len(),
{
    if s.len() == 0 {
        0
    } else {
        value_of_digits(s.drop_last()) * 10 + (s.last() as u32 - 48)
    }
}

/// A number's digits are digits, stand for the number, and do not start with a
/// zero unless the number is zero.
pub proof fn law_digits_stand_for_the_number(n: nat)
    ensures
        decimal(n).len() >= 1,
        value_of_digits(decimal(n)) == n,
        forall|i: int| 0 <= i < decimal(n).len() ==> 48 <= #[trigger] decimal(n)[i] as u32 <= 57,
        n > 0 ==> decimal(n)[0] as u32 > 48,
    decreases n,
{
    let d = decimal(n);
    let digit = ('0' as u32 + n % 10) as char;
    assert(d.last() == digit);
    assert(digit as u32 == 48 + n % 10);
    if n < 10 {
        assert(d.drop_last() =~= Seq::<char>::empty());
        assert(value_of_digits(d.drop_last()) == 0);
    } else {
        law_digits_stand_for_the_number(n / 10);
        assert(d.drop_last() =~= decimal(n / 10));
        assert(d[0] == decimal(n / 10)[0]);
        assert forall|i: int| 0 <= i < d.len() implies 48 <= #[trigger] d[i] as u32 <= 57 by {
            if i < d.len() - 1 {
                assert(d[i] == decimal(n / 10)[i]);
            }
        }
    }
}

/// An envelope says what the codec's own error says, or without one what its
/// category does, behind the codec's name and a colon where it has one.
pub proof fn law_words_of_an_envelope<D: Phrase>(e: CodecError<D>, codec: &'static str, d: D)
    ensures
        e@.codec is None && e@.detail == Some(d) ==> e.words() == d.words(),
        e@.codec is None && e@.detail is None ==> e.words() == e@.category.words(),
        e@.codec == Some(codec) && e@.detail == Some(d) ==> e.words() == codec@ + ": "@ + d.words(),
        e@.codec == Some(codec) && e@.detail is None ==> e.words() == codec@ + ": "@
            + e@.category.words(),
        e.categorized() == e@.category,
        e@.codec is None ==> e.named() is None,
        e@.codec == Some(codec) ==> e.named() == Some(codec@),
{
}

/// A place in a stream says its number of bytes.
pub proof fn law_words_of_a_place(offset: StreamOffset)
    ensures
        offset.words() == "byte offset "@ + decimal(offset.0 as nat),
{
}

} // verus!
