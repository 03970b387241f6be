//! Decision logic of a pseudo-terminal relay daemon: the control-channel
//! frame decoder, the exit-status translation, the choice of signal target
//! and the per-iteration decisions of the relay loop.

pub mod exit_status;
pub mod frame;
pub mod relay;
pub mod signal;
