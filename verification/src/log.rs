//! Writing things out.
//!
//!   trace   the frame-by-frame protocol narration, meant for stdout
//!   status  minitcp talking about itself, meant for stderr
//!   render  an `Outcome` as trace lines
//!
//! stdout is the result, stderr is commentary, so `minitcp stack > run.log`
//! gives a clean log and still shows problems. Everything here builds text;
//! the program writes it.

pub mod trace;
pub mod status;
pub mod render;
