//! The contract every synchronization engine obeys.

use vstd::prelude::*;

verus! {

/// An error a synchronization engine reports.
#[derive(Debug, Clone)]
pub struct SynchroError {
    message: String,
    code: u64,
}

impl SynchroError {
    /// The spec-level fields.
    pub closed spec fn spec_message(&self) -> Seq<char> {
        self.message@
    }

    pub closed spec fn spec_code(&self) -> u64 {
        self.code
    }

    pub fn new(message: String, code: u64) -> (r: Self)
        ensures
            r.spec_message() == message@,
            r.spec_code() == code,
    {
        SynchroError { message, code }
    }

    pub fn code(&self) -> (r: u64)
        ensures
            r == self.spec_code(),
    {
        self.code
    }

    pub fn message(&self) -> (r: &str)
        ensures
            r@ == self.spec_message(),
    {
        self.message.as_str()
    }
}

/// How a synchronization ended: fully good, or with a warning, each
/// carrying the engine's return code.
pub enum SynchroState {
    Good(u64),
    Warn(u64),
}

pub type SynchroResult<T> = Result<T, SynchroError>;

/// A synchronization engine: one call transfers everything it is
/// configured for.
pub trait Synchro {
    fn sync(&self) -> SynchroResult<SynchroState>;
}

} // verus!
