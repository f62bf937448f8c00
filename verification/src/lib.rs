//! Repeatedly run an external command at a fixed interval.
//!
//! The library holds the verified core of the scheduler-runner: the
//! chunked wait plan, the repeat-count state machine, and the exact
//! text that each cycle reports. The surrounding binary performs the
//! sleeps, spawns the subprocess, and writes the planned text to the
//! standard streams.

pub mod command;
pub mod digits;
pub mod policy;
pub mod report;
pub mod schedule;
pub mod style;
