//! The command line: flags anywhere, one command, and three layers of
//! settings. Defaults < minitcp.toml < command line.

pub mod command;
pub mod error;
pub mod usage;
pub mod laws;
pub mod show;
pub mod options;
pub mod flags;
pub mod args;
pub mod file;
pub mod settle;
pub mod child;
