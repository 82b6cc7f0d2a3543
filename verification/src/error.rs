//! The one kind of failure that loading or saving a document can meet.

use vstd::prelude::*;

verus! {

/// A failed read or write of a file, with a message for the user. Reads and
/// writes fail alike: the document stays usable and the caller decides how
/// to show the message.
#[derive(Clone, Debug, PartialEq, Eq)]
pub struct IoError {
    message: String,
}

impl View for IoError {
    type V = Seq<char>;

    closed spec fn view(&self) -> Seq<char> {
        self.message@
    }
}

impl IoError {
    /// An error that carries `message`.
    pub fn new(message: String) -> (error: IoError)
        ensures
            error@ == message@,
    {
        IoError { message }
    }

    /// The message for the user.
    pub fn message(&self) -> (message: &str)
        ensures
            message@ == self@,
    {
        self.message.as_str()
    }
}

} // verus!
