//! Runs a program, measures how long it took, and renders a report in the
//! style of a shell's `time` command.

pub mod report;
pub mod config;
