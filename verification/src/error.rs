//! The library's error type.

use vstd::prelude::*;

verus! {

/// What can stop an import or the parsing of an identifier.
#[derive(Debug)]
pub enum Error {
    /// A pattern of one of the importers did not compile; holds the
    /// matcher's own message.
    Regex(String),
    /// A matched identifier or tag holds something that cannot be read,
    /// such as a revision that does not fit in 32 bits.
    Parse { message: String, location: String },
    /// A configuration value is unusable.
    Config(String),
    /// A string is not of the form `type~name~revision`.
    InvalidId(String),
    /// An item was declared twice.
    Duplicate(String),
    /// A referenced requirement does not exist.
    RequirementNotFound(String),
}

/// An error as a mathematical value.
pub enum ErrorView {
    Regex(Seq<char>),
    Parse { message: Seq<char>, location: Seq<char> },
    Config(Seq<char>),
    InvalidId(Seq<char>),
    Duplicate(Seq<char>),
    RequirementNotFound(Seq<char>),
}

impl DeepView for Error {
    type V = ErrorView;

    open spec fn deep_view(&self) -> ErrorView {
        match self {
            Error::Regex(message) => ErrorView::Regex(message@),
            Error::Parse { message, location } => ErrorView::Parse {
                message: message@,
                location: location@,
            },
            Error::Config(message) => ErrorView::Config(message@),
            Error::InvalidId(message) => ErrorView::InvalidId(message@),
            Error::Duplicate(message) => ErrorView::Duplicate(message@),
            Error::RequirementNotFound(message) => ErrorView::RequirementNotFound(message@),
        }
    }
}

impl View for Error {
    type V = ErrorView;

    open spec fn view(&self) -> ErrorView {
        self.deep_view()
    }
}

/// A result with its value and its error taken as mathematical values.
pub open spec fn result_view<T: DeepView>(r: Result<T, Error>) -> Result<T::V, ErrorView> {
    match r {
        Ok(value) => Ok(value.deep_view()),
        Err(error) => Err(error.deep_view()),
    }
}

} // verus!
