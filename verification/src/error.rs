use vstd::prelude::*;

verus! {

/// `std::io::Error`, carried through as it is: nothing is said of what it
/// holds.
#[verifier::external_type_specification]
#[verifier::external_body]
pub struct ExIoError(std::io::Error);

/// `std::string::FromUtf8Error`, carried through as it is: nothing is said
/// of what it holds.
#[verifier::external_type_specification]
#[verifier::external_body]
pub struct ExFromUtf8Error(std::string::FromUtf8Error);

/// Why an interface could not be recovered.
#[derive(Debug)]
pub enum Error {
    /// A position that had to be read is absent from the tree, or holds
    /// something of the wrong shape. The text names the position.
    NoSuchEntryInSexp(String),
    /// The component is of another kind than a transition. The text is that
    /// kind.
    CompTypeIsNotTransition(String),
    /// The formatter could not be run, or its output could not be collected.
    IoError(std::io::Error),
    /// The text is not a symbolic tree. The text is the reader's message.
    LexprParseError(String),
    /// The formatter's output is not UTF-8.
    FromUtf8Error(std::string::FromUtf8Error),
}

/// What an [`Error`] says, with texts as sequences of characters. The
/// errors of outside code are told apart by their kind only.
pub enum ErrorView {
    NoSuchEntryInSexp(Seq<char>),
    CompTypeIsNotTransition(Seq<char>),
    IoError,
    LexprParseError,
    FromUtf8Error,
}

impl View for Error {
    type V = ErrorView;

    open spec fn view(&self) -> ErrorView {
        match self {
            Error::NoSuchEntryInSexp(entry) => ErrorView::NoSuchEntryInSexp(entry@),
            Error::CompTypeIsNotTransition(kind) => ErrorView::CompTypeIsNotTransition(kind@),
            Error::IoError(_) => ErrorView::IoError,
            Error::LexprParseError(_) => ErrorView::LexprParseError,
            Error::FromUtf8Error(_) => ErrorView::FromUtf8Error,
        }
    }
}

} // verus!
