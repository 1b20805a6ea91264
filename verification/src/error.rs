//! A simple error type for image import problems.
use vstd::prelude::*;
use vstd::string::StringExecFns;

verus! {

/// Kinds of import errors.
#[derive(Debug, Clone, Copy, PartialEq, Eq, Structural)]
pub enum ErrorTypes {
    FileImportAborted,
    ImageLoadError,
}

/// An error: its kind and a user-facing message describing what went wrong.
#[derive(Debug)]
pub struct Error {
    err_id: ErrorTypes,
    err_msg: String,
}

impl Error {
    /// The kind of the error.
    pub closed spec fn spec_id(&self) -> ErrorTypes {
        self.err_id
    }

    /// The message of the error.
    pub closed spec fn spec_msg(&self) -> Seq<char> {
        self.err_msg@
    }

    /// Creates an error of kind `id` with message `msg`.
    pub fn new(id: ErrorTypes, msg: &str) -> (e: Error)
        ensures
            e.spec_id() == id,
            e.spec_msg() == msg@,
    {
        Error { err_id: id, err_msg: String::from_str(msg) }
    }

    /// The kind of the error.
    pub fn id(&self) -> (id: ErrorTypes)
        ensures
            id == self.spec_id(),
    {
        self.err_id
    }

    /// The user-facing message that describes what went wrong.
    pub fn msg(&self) -> (m: String)
        ensures
            m@ == self.spec_msg(),
    {
        self.err_msg.clone()
    }
}

} // verus!
