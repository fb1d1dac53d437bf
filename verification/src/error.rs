//! The library's error type.

use vstd::prelude::*;

verus! {

/// What is wrong with a floating-point constant that cannot take a given type.
#[derive(Clone, Copy, Debug, PartialEq, Eq, Structural)]
pub enum ConstantFault {
    /// A cast of an infinity or a NaN to an integer type.
    CastNonFinite,
    /// A cast of a value outside the integer type's range.
    CastOutOfRange,
    /// A cast of a value with a fractional part to an integer type.
    CastNonInteger,
    /// An infinity or a NaN to be stored as an integer.
    EncodeNonFinite,
    /// A value with a fractional part to be stored as an integer.
    EncodeNonInteger,
    /// A value outside the range of the type to be stored.
    EncodeOutOfRange,
    /// A finite value that overflows while it is narrowed for the type to be stored.
    EncodeOverflow,
    /// A `one_hot` depth that is not a whole number.
    OneHotDepth,
}

/// Why a model cannot be converted or a graph cannot be processed.
#[derive(Debug, PartialEq, Eq)]
pub enum Error {
    /// A message for the user.
    Message(String),
    /// A constant, given by the bits of its `binary64` encoding, that does not fit `dtype`.
    Constant { fault: ConstantFault, bits: u64, dtype: String },
}

/// The mathematical content of an [`Error`].
pub enum ErrorView {
    Message(Seq<char>),
    Constant { fault: ConstantFault, bits: u64, dtype: Seq<char> },
}

impl View for Error {
    type V = ErrorView;

    open spec fn view(&self) -> ErrorView {
        match self {
            Error::Message(text) => ErrorView::Message(text@),
            Error::Constant { fault, bits, dtype } => ErrorView::Constant {
                fault: *fault,
                bits: *bits,
                dtype: dtype@,
            },
        }
    }
}

/// The outcome of a step that returns nothing, as a mathematical value.
pub open spec fn outcome(r: Result<(), Error>) -> Result<(), ErrorView> {
    match r {
        Ok(_) => Ok(()),
        Err(e) => Err(e@),
    }
}

/// The error with the given text.
pub open spec fn message(text: Seq<char>) -> ErrorView {
    ErrorView::Message(text)
}

impl Error {
    /// An error with a fixed text.
    pub fn text(text: &str) -> (r: Error)
        ensures
            r@ == message(text@),
    {
        Error::Message(text.to_string())
    }

    /// An error with a computed text.
    pub fn owned(text: String) -> (r: Error)
        ensures
            r@ == message(text@),
    {
        Error::Message(text)
    }
}

} // verus!
