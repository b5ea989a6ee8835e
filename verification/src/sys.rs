//! The machine around the stack: helper commands, the TAP sidecar, and the
//! TAP device itself.

pub mod process;
pub mod docker;
pub mod tapdev;
