//! The terminal lab's decisions: scrollback panes, which keys do what, where
//! the capture runs, and how finished processes are reported. Drawing and
//! running processes are the program's.

pub mod buffer;
pub mod capture;
pub mod lab;
pub mod screen;
pub mod report;
