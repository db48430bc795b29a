//! Host side of a firmware link to an embedded radio over a serial line.
//!
//! The crate holds the rules of the link as verified functions on plain
//! values: how a control command is laid out and framed for the wire, how a
//! command line is read, and which step the supervisor of a flash transfer
//! takes next. Opening devices and files, running the block transfer and
//! printing are left to the program that drives these functions.

pub mod error;
pub mod framing;
pub mod command;
pub mod dispatch;
pub mod supervisor;
pub mod operations;

pub use operations::{dump, flash, info, info_channel};
