//! Interactive privilege transition: the decisions of an `su`-like tool.
//!
//! The library decides; the program around it performs. It builds the
//! environment handed to the new process image, checks strings bound for the
//! kernel, checks group membership, and drives the pipeline as a state
//! machine whose actions the caller carries out one at a time.
pub mod authorization;
pub mod command;
pub mod environment;
pub mod error;
pub mod transition;
