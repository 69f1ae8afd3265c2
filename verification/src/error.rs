//! The errors of the library.
use vstd::prelude::*;

verus! {

/// What went wrong.
#[derive(Debug)]
pub enum Error {
    /// A parameter of a policy cannot be used.
    InvalidParameters(String),
    /// A value could not be read.
    DeserializationError(String),
    /// The policy is one that the controller refuses.
    IllegalResource,
}

pub enum ErrorView {
    InvalidParameters(Seq<char>),
    DeserializationError(Seq<char>),
    IllegalResource,
}

impl View for Error {
    type V = ErrorView;

    open spec fn view(&self) -> ErrorView {
        match self {
            Error::InvalidParameters(m) => ErrorView::InvalidParameters(m@),
            Error::DeserializationError(m) => ErrorView::DeserializationError(m@),
            Error::IllegalResource => ErrorView::IllegalResource,
        }
    }
}

} // verus!
