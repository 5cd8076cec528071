//! The errors that loading reports.

use vstd::prelude::*;
use vstd::std_specs::convert::FromSpecImpl;

verus! {

/// `std::io::Error`, carried through as it comes.
#[verifier::external_type_specification]
#[verifier::external_body]
pub struct ExIoError(std::io::Error);

/// A failure found in the document itself: what is wrong, in words meant
/// for a person.
#[derive(Debug)]
pub struct ContextualError {
    message: String,
}

impl View for ContextualError {
    type V = Seq<char>;

    closed spec fn view(&self) -> Seq<char> {
        self.message@
    }
}

impl ContextualError {
    /// An error that says `error`.
    pub fn new(error: &str) -> (e: ContextualError)
        ensures
            e@ == error@,
    {
        ContextualError { message: error.to_owned() }
    }

    /// What the error says.
    pub fn message(&self) -> (text: &str)
        ensures
            text@ == self@,
    {
        self.message.as_str()
    }
}

/// Why a document could not be had: it could not be read, or what was read
/// is not acceptable.
#[derive(Debug)]
pub enum Error {
    Io(std::io::Error),
    Contextual(ContextualError),
}

/// `Display` of a `std::io::Error`, as a string. The text comes from the
/// operating system, so nothing is claimed of it.
#[verifier::external_body]
fn io_text(err: &std::io::Error) -> String {
    format!("{}", err)
}

impl Error {
    /// What the error says: for a contextual error its message.
    pub fn message(&self) -> (text: String)
        ensures
            self matches Error::Contextual(e) ==> text@ == e@,
    {
        match self {
            Error::Io(err) => io_text(err),
            Error::Contextual(err) => err.message().to_owned(),
        }
    }
}

impl From<std::io::Error> for Error {
    fn from(err: std::io::Error) -> (e: Error) {
        Error::Io(err)
    }
}

impl FromSpecImpl<std::io::Error> for Error {
    open spec fn obeys_from_spec() -> bool {
        true
    }

    open spec fn from_spec(err: std::io::Error) -> Error {
        Error::Io(err)
    }
}

impl From<ContextualError> for Error {
    fn from(err: ContextualError) -> (e: Error) {
        Error::Contextual(err)
    }
}

impl FromSpecImpl<ContextualError> for Error {
    open spec fn obeys_from_spec() -> bool {
        true
    }

    open spec fn from_spec(err: ContextualError) -> Error {
        Error::Contextual(err)
    }
}

} // verus!
