//! The synchronization toolkit's data types: its error taxonomy, the
//! messages its worker threads exchange, its task descriptions, and the
//! logging interface. The file transfer engines themselves do outside work
//! and live with the callers.

pub mod error;
pub mod loggers;
pub mod scriptrunner;
pub mod synchrotrait;
pub mod task;
pub mod taskrunner;
pub mod threadmessage;
pub mod utils;
