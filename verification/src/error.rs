//! Configuration-time validation errors.

use vstd::prelude::*;

verus! {

/// A configuration-time validation error carrying a human-readable message.
///
/// All failures in this core are of this kind: none are recoverable
/// automatically and none represent partial success. The message is
/// surfaced verbatim to the user by the surrounding CLI layer.
#[derive(Debug)]
pub struct ArgumentError {
    message: String,
}

impl View for ArgumentError {
    type V = Seq<char>;

    closed spec fn view(&self) -> Seq<char> {
        self.message@
    }
}

impl ArgumentError {
    pub fn new(message: String) -> (result: ArgumentError)
        ensures
            result@ == message@,
    {
        ArgumentError { message }
    }

    /// The user-facing message of this error.
    pub fn message(&self) -> (result: &str)
        ensures
            result@ == self@,
    {
        self.message.as_str()
    }
}

} // verus!
