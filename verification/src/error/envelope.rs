//! The error that a codec returns.
use super::category::{CategorizedError, ErrorCategory};
use super::phrase::Phrase;
use vstd::prelude::*;
use vstd::string::StringExecFns;

verus! {

/// What an error envelope holds.
struct Repr<D> {
    category: ErrorCategory,
    codec: Option<&'static str>,
    detail: Option<D>,
}

/// The error that a codec returns: its category, the codec's name, and the
/// codec's own error, of type `D`. The handle is one word.
pub struct CodecError<D> {
    repr: Box<Repr<D>>,
}

/// A byte offset into the encoded input, where an error was met.
#[derive(Clone, Copy, Debug, PartialEq, Eq, Hash, Structural)]
pub struct StreamOffset(pub u64);

/// The contents of a [`CodecError`].
pub struct ErrorView<D> {
    pub category: ErrorCategory,
    pub codec: Option<&'static str>,
    pub detail: Option<D>,
}

impl<D> View for CodecError<D> {
    type V = ErrorView<D>;

    closed spec fn view(&self) -> ErrorView<D> {
        ErrorView {
            category: self.repr.category,
            codec: self.repr.codec,
            detail: self.repr.detail,
        }
    }
}

/// The spelling of a name that may be absent.
pub open spec fn spelling(name: Option<&'static str>) -> Option<Seq<char>> {
    match name {
        Some(s) => Some(s@),
        None => None,
    }
}

impl<D> CodecError<D> {
    /// An error without a codec's own.
    pub fn new(codec: Option<&'static str>, category: ErrorCategory) -> (r: Self)
        ensures
            r@ == (ErrorView { category, codec, detail: None::<D> }),
    {
        CodecError { repr: Box::new(Repr { category, codec, detail: None }) }
    }

    /// An error with a codec's own, of an explicit category.
    pub fn from_parts(codec: Option<&'static str>, category: ErrorCategory, detail: D) -> (r: Self)
        ensures
            r@ == (ErrorView { category, codec, detail: Some(detail) }),
    {
        CodecError { repr: Box::new(Repr { category, codec, detail: Some(detail) }) }
    }

    /// Set or clear the codec's name.
    #[must_use]
    pub fn with_codec(self, codec: Option<&'static str>) -> (r: Self)
        ensures
            r@ == (ErrorView { codec, ..self@ }),
    {
        let repr = *self.repr;
        CodecError { repr: Box::new(Repr { codec, ..repr }) }
    }

    /// The category.
    pub fn category(&self) -> (r: ErrorCategory)
        ensures
            r == self@.category,
    {
        self.repr.category
    }

    /// The codec's name.
    pub fn codec(&self) -> (r: Option<&'static str>)
        ensures
            r == self@.codec,
    {
        self.repr.codec
    }

    /// The codec's own error.
    pub fn detail(&self) -> (r: Option<&D>)
        ensures
            r == (match self@.detail {
                Some(d) => Some(&d),
                None => None,
            }),
    {
        match &self.repr.detail {
            Some(d) => Some(d),
            None => None,
        }
    }
}

impl<D: CategorizedError> CodecError<D> {
    /// An error with a codec's own, which knows its category and its codec.
    pub fn from_native(detail: D) -> (r: Self)
        requires
            detail.named() is Some,
        ensures
            r@.category == detail.categorized(),
            spelling(r@.codec) == detail.named(),
            r@.detail == Some(detail),
    {
        let category = detail.category();
        let codec = detail.codec_name();
        CodecError { repr: Box::new(Repr { category, codec, detail: Some(detail) }) }
    }
}

impl<D> CategorizedError for CodecError<D> {
    open spec fn named(&self) -> Option<Seq<char>> {
        spelling(self@.codec)
    }

    open spec fn categorized(&self) -> ErrorCategory {
        self@.category
    }

    fn codec_name(&self) -> (r: Option<&'static str>) {
        self.repr.codec
    }

    fn category(&self) -> (r: ErrorCategory) {
        self.repr.category
    }
}

/// The words of an error: the codec's name, if it is set, and then the codec's
/// own error, or the category where there is none.
impl<D: Phrase> Phrase for CodecError<D> {
    open spec fn words(&self) -> Seq<char> {
        let said = match self@.detail {
            Some(d) => d.words(),
            None => self@.category.words(),
        };
        match self@.codec {
            Some(codec) => codec@ + ": "@ + said,
            None => said,
        }
    }

    fn phrase(&self) -> (r: String) {
        let said = match &self.repr.detail {
            Some(d) => d.phrase(),
            None => self.repr.category.phrase(),
        };
        match self.repr.codec {
            Some(codec) => String::from_str(codec).concat(": ").concat(said.as_str()),
            None => said,
        }
    }
}

/// A number in decimal digits.
pub open spec fn decimal(n: nat) -> Seq<char>
    decreases n,
{
    let digit = ('0' as u32 + n % 10) as char;
    if n < 10 {
        seq![digit]
    } else {
        decimal(n / 10).push(digit)
    }
}

/// A decimal digit.
fn digit_text(n: u64) -> (r: &'static str)
    requires
        n < 10,
    ensures
        r@ == decimal(n as nat),
{
    proof {
        reveal_strlit("0");
        reveal_strlit("1");
        reveal_strlit("2");
        reveal_strlit("3");
        reveal_strlit("4");
        reveal_strlit("5");
        reveal_strlit("6");
        reveal_strlit("7");
        reveal_strlit("8");
        reveal_strlit("9");
    }
    let r = match n {
        0 => "0",
        1 => "1",
        2 => "2",
        3 => "3",
        4 => "4",
        5 => "5",
        6 => "6",
        7 => "7",
        8 => "8",
        _ => "9",
    };
    assert(r@ =~= decimal(n as nat));
    r
}

/// A number in decimal digits.
fn decimal_text(n: u64) -> (r: String)
    ensures
        r@ == decimal(n as nat),
    decreases n,
{
    if n < 10 {
        return String::from_str(digit_text(n));
    }
    let r = decimal_text(n / 10).concat(digit_text(n % 10));
    assert(r@ =~= decimal(n as nat));
    r
}

impl Phrase for StreamOffset {
    open spec fn words(&self) -> Seq<char> {
        "byte offset "@ + decimal(self.0 as nat)
    }

    fn phrase(&self) -> (r: String) {
        String::from_str("byte offset ").concat(decimal_text(self.0).as_str())
    }
}

} // verus!
