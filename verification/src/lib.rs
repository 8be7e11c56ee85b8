//! A process supervisor library: the lifecycle state machine of a single
//! managed child process, the directory change detector that can trigger a
//! restart, and the decision rules of the three supervision monitors
//! (exit, file-change, force-restart).
//!
//! The library holds the decisions and state transitions; the surrounding
//! program performs the operating-system work (spawning, killing and polling
//! the child, scanning the directory, sleeping) and reports each outcome back
//! as a plain value.

pub mod args;
pub mod bytes;
pub mod config;
pub mod detector;
