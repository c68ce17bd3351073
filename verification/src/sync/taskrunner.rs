//! The error type of the task runner; the runner itself drives external
//! engines and lives with the callers.

use vstd::prelude::*;

verus! {

/// An error raised while running a task.
#[derive(Debug, Clone)]
pub struct TaskError {
    message: String,
    code: u64,
}

impl TaskError {
    /// The spec-level fields.
    pub closed spec fn spec_message(&self) -> Seq<char> {
        self.message@
    }

    pub closed spec fn spec_code(&self) -> u64 {
        self.code
    }

    pub fn new(message: &str, code: u64) -> (r: Self)
        ensures
            r.spec_message() == message@,
            r.spec_code() == code,
    {
        TaskError { message: message.to_owned(), code }
    }

    /// The error message.
    pub fn message(&self) -> (r: &str)
        ensures
            r@ == self.spec_message(),
    {
        self.message.as_str()
    }

    /// The error code.
    pub fn code(&self) -> (r: u64)
        ensures
            r == self.spec_code(),
    {
        self.code
    }
}

pub type TaskResult<T> = Result<T, TaskError>;

} // verus!
