//! The error that provisioning a test machine reports: one message, which
//! callers extend with context on the way up.

use vstd::prelude::*;
use vstd::string::StringExecFns;

verus! {

/// An error with its message.
#[derive(Debug)]
pub struct EC2Error(String);

impl View for EC2Error {
    type V = Seq<char>;

    closed spec fn view(&self) -> Seq<char> {
        self.0@
    }
}

/// `context`, a colon, a space and `message`.
pub open spec fn with_context(context: Seq<char>, message: Seq<char>) -> Seq<char> {
    context + ": "@ + message
}

impl EC2Error {
    /// An error that says `value`.
    pub fn new(value: String) -> (e: EC2Error)
        ensures
            e@ == value@,
    {
        EC2Error(value)
    }

    /// The same error with `message` put before what it said.
    pub fn add_message(self, message: String) -> (e: EC2Error)
        ensures
            e@ == with_context(message@, self@),
    {
        EC2Error(message.concat(": ").concat(self.0.as_str()))
    }

    /// The error that a failed service call stands for: its code and its
    /// reason, each replaced by a fixed text where the service gave none.
    pub fn from_metadata(code: Option<&str>, reason: Option<&str>) -> (e: EC2Error)
        ensures
            e@ == with_context(
                match code {
                    Some(c) => c@,
                    None => "unknown code"@,
                },
                match reason {
                    Some(r) => r@,
                    None => "missing reason"@,
                },
            ),
    {
        let head = match code {
            Some(c) => c,
            None => "unknown code",
        };
        let tail = match reason {
            Some(r) => r,
            None => "missing reason",
        };
        EC2Error(String::from_str(head).concat(": ").concat(tail))
    }

    /// What the error says.
    pub fn message(&self) -> (m: &str)
        ensures
            m@ == self@,
    {
        self.0.as_str()
    }
}

} // verus!
