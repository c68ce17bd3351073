//! A verified core for a backup-orchestration daemon: a fixed-size packet
//! codec, a broadcast bus with filtered fan-out, the module worker protocol,
//! and the supervising module manager.

pub mod packet;
pub mod queue;
pub mod module;
pub mod bus;
pub mod modulemanagerconfig;
pub mod modulemanager;
pub mod modules;
pub mod text;
pub mod tcpmessages;
pub mod daemon;
pub mod sync;
