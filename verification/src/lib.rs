//! MiniTCP: a small userspace TCP/IP stack whose wire formats, decisions and
//! text output are proved against their specifications.

pub mod proto;
pub mod text;
pub mod parse;
pub mod event;
pub mod stack;
pub mod log;
pub mod cli;
pub mod release;
pub mod interface;
pub mod tui;
pub mod sys;
