//! Verified core of a Pop!_OS / COSMIC desktop management tool: parsers for the
//! output of system commands, configuration-file rewriting, diagnostics and
//! the shell scripts that the tool runs.

pub mod text;
pub mod runner;
pub mod ui;
