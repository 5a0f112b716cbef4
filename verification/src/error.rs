//! The single error of a seeding run: a message that says what went wrong.

use vstd::prelude::*;
use vstd::string::StringExecFns;

verus! {

/// Why a seeding step failed. Every failure is fatal to the run, so the error
/// carries nothing but the text that is shown to the operator.
#[derive(Clone, Debug, PartialEq, Eq)]
pub struct MyError {
    details: String,
}

impl View for MyError {
    type V = Seq<char>;

    closed spec fn view(&self) -> Seq<char> {
        self.details@
    }
}

impl MyError {
    /// An error with the message `msg`.
    pub fn new(msg: &str) -> (e: MyError)
        ensures
            e@ == msg@,
    {
        MyError { details: msg.to_owned() }
    }

    /// The message of this error.
    pub fn details(&self) -> (s: &str)
        ensures
            s@ == self@,
    {
        self.details.as_str()
    }
}

/// The message for a record or a parameter list that lacks the entry
/// `name`.
pub open spec fn missing_field(name: Seq<char>) -> Seq<char> {
    "Cannot find "@ + name
}

/// The error for a record or a parameter list that lacks the entry `name`.
pub fn missing(name: &str) -> (error: MyError)
    ensures
        error@ == missing_field(name@),
{
    let message = "Cannot find ".to_owned().concat(name);
    MyError::new(message.as_str())
}

} // verus!
