//! Messages the synchronization workers send back to their coordinator.

use vstd::prelude::*;
use std::io::ErrorKind;
use crate::text::dec_digits;
use vstd::string::StringExecFns;

verus! {

#[verifier::external_type_specification]
#[verifier::external_body]
pub struct ExIoError(std::io::Error);

#[verifier::external_type_specification]
#[verifier::external_body]
pub struct ExIoErrorKind(ErrorKind);

/// Relies on `std::io::Error::new`: builds an error of the given kind
/// around the message.
#[verifier::external_body]
fn io_error_new(kind: ErrorKind, message: &str) -> std::io::Error {
    std::io::Error::new(kind, message)
}

/// Relies on `std::io::Error`'s display form through `ToString`.
#[verifier::external_body]
fn io_error_string(e: &std::io::Error) -> String {
    e.to_string()
}

/// A worker message: information, an error, or a warning, each with a
/// code.
pub enum ThreadMessage {
    Inf((String, u64)),
    Er((std::io::Error, u64)),
    Warn((String, u64)),
}

impl ThreadMessage {
    pub fn info(message: &str, code: u64) -> (r: Self)
        ensures
            r matches ThreadMessage::Inf(t) && t.0@ == message@ && t.1 == code,
    {
        ThreadMessage::Inf((message.to_owned(), code))
    }

    pub fn error(kind: ErrorKind, message: &str, code: u64) -> (r: Self)
        ensures
            r matches ThreadMessage::Er(t) && t.1 == code,
    {
        ThreadMessage::Er((io_error_new(kind, message), code))
    }

    pub fn from_error(e: std::io::Error) -> (r: Self)
        ensures
            r matches ThreadMessage::Er(t) && t.1 == 42,
    {
        ThreadMessage::Er((e, 42))
    }

    pub fn warn(message: &str, code: u64) -> (r: Self)
        ensures
            r matches ThreadMessage::Warn(t) && t.0@ == message@ && t.1 == code,
    {
        ThreadMessage::Warn((message.to_owned(), code))
    }

    /// The message text; for an error message it is whatever the carried
    /// error displays as.
    pub fn get_message(&self) -> (r: String)
        ensures
            self matches ThreadMessage::Inf(t) ==> r@ == t.0@,
            self matches ThreadMessage::Warn(t) ==> r@ == t.0@,
    {
        match &self {
            ThreadMessage::Inf(t) => t.0.clone(),
            ThreadMessage::Er(t) => io_error_string(&t.0),
            ThreadMessage::Warn(t) => t.0.clone(),
        }
    }

    /// The message code.
    pub fn get_code(&self) -> (r: u64)
        ensures
            self matches ThreadMessage::Inf(t) ==> r == t.1,
            self matches ThreadMessage::Er(t) ==> r == t.1,
            self matches ThreadMessage::Warn(t) ==> r == t.1,
    {
        match &self {
            ThreadMessage::Inf(t) => t.1,
            ThreadMessage::Er(t) => t.1,
            ThreadMessage::Warn(t) => t.1,
        }
    }

    /// Renders the message with its severity; the text fills the first
    /// slot and the code the second.
    pub fn to_string(&self) -> (r: String)
        ensures
            self matches ThreadMessage::Inf(t) ==> r@ == "INFO : Code "@ + t.0@ + " :: Message "@
                + dec_digits(t.1 as int),
            self matches ThreadMessage::Warn(t) ==> r@ == "WARNING : Code "@ + t.0@
                + " :: Message "@ + dec_digits(t.1 as int),
            self matches ThreadMessage::Er(t) ==> exists|m: Seq<char>|
                r@ == "ERROR : Code "@ + m + " :: Message "@ + dec_digits(t.1 as int),
    {
        match &self {
            ThreadMessage::Inf(t) => {
                let mut s = "INFO : Code ".to_owned();
                s.append(t.0.as_str());
                s.append(" :: Message ");
                let digits = crate::text::u64_to_string(t.1);
                s.append(digits.as_str());
                s
            },
            ThreadMessage::Er(t) => {
                let mid = io_error_string(&t.0);
                let mut s = "ERROR : Code ".to_owned();
                s.append(mid.as_str());
                s.append(" :: Message ");
                let digits = crate::text::u64_to_string(t.1);
                s.append(digits.as_str());
                proof {
                    assert(s@ == "ERROR : Code "@ + mid@ + " :: Message "@ + dec_digits(
                        t.1 as int,
                    ));
                }
                s
            },
            ThreadMessage::Warn(t) => {
                let mut s = "WARNING : Code ".to_owned();
                s.append(t.0.as_str());
                s.append(" :: Message ");
                let digits = crate::text::u64_to_string(t.1);
                s.append(digits.as_str());
                s
            },
        }
    }
}

} // verus!
