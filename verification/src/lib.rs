//! The decisions of a local duplex byte stream that hides interruptions.
//!
//! A stream over a Unix domain socket or a named pipe forwards each poll to the
//! native channel. The channel may report that a signal interrupted the attempt;
//! the stream then repeats the attempt at once and the caller never learns of
//! it. Every other report reaches the caller as the channel gave it.
//!
//! This crate holds that rule and what follows from it, free of any I/O: the
//! stream's driver performs the attempts and asks [`next_step`] what to do with
//! each report.

pub mod attempt;
pub mod policy;
pub mod trace;

pub use attempt::{Attempt, ErrorKind};
pub use policy::{next_step, Step};
