//! The logging interface of the synchronization toolkit.

use vstd::prelude::*;
use crate::sync::error::Error;

verus! {

/// How loud a logged line is.
#[derive(PartialEq, Eq, Structural)]
pub enum Level {
    Error,
    Warn,
    Debug,
}

/// A sink for log lines; implementors decide where the lines go.
pub trait Logger {
    fn log(&mut self, message: &str) -> Result<(), Error>;

    fn err(&mut self, message: &str) -> Result<(), Error>;

    fn warn(&mut self, message: &str) -> Result<(), Error>;

    fn good(&mut self) -> bool;
}

} // verus!
