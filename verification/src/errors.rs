//! The failures of the pipeline.

use vstd::prelude::*;

verus! {

/// The stage of the pipeline at which a failure arose.
#[derive(Clone, Copy, Debug, PartialEq, Eq, Structural)]
pub enum ErrorKind {
    /// The embedding model failed or answered with malformed data.
    Embedding,
    /// A search in the vector store, or a write to it, failed.
    VectorStore,
    /// The payload of one search hit does not have the shape of a stored chunk.
    PayloadDecode,
    /// The generative model failed.
    Generation,
}

/// A failure: its stage and a description meant for people.
#[derive(Clone, Debug)]
pub struct Error {
    pub kind: ErrorKind,
    pub message: String,
}

/// The mathematical content of an [`Error`].
pub struct ErrorView {
    pub kind: ErrorKind,
    pub message: Seq<char>,
}

impl View for Error {
    type V = ErrorView;

    open spec fn view(&self) -> ErrorView {
        ErrorView { kind: self.kind, message: self.message@ }
    }
}

/// `what`, a colon, a space and `cause`.
pub open spec fn caused(what: Seq<char>, cause: Seq<char>) -> Seq<char> {
    what + seq![':', ' '] + cause
}

/// `what`, a colon, a space and `cause`, as a string.
pub fn describe(what: &str, cause: &str) -> (s: String)
    ensures
        s@ == caused(what@, cause@),
{
    let mut s = String::from_str(what);
    s.push(':');
    s.push(' ');
    s.append(cause);
    assert(s@ =~= caused(what@, cause@));
    s
}

impl Error {
    /// A failure of the given kind with the given description.
    pub fn new(kind: ErrorKind, message: &str) -> (e: Error)
        ensures
            e@ == (ErrorView { kind, message: message@ }),
    {
        Error { kind, message: String::from_str(message) }
    }

    /// A failure of the given kind, described as `what`, a colon, a space
    /// and `cause`.
    pub fn because(kind: ErrorKind, what: &str, cause: &str) -> (e: Error)
        ensures
            e@ == (ErrorView { kind, message: caused(what@, cause@) }),
    {
        Error { kind, message: describe(what, cause) }
    }

    /// The description of the failure.
    pub fn to_string(&self) -> (s: String)
        ensures
            s@ == self@.message,
    {
        self.message.clone()
    }
}

} // verus!
