//! Verified core of the status display and of the QMDL fuzzing harness.
//!
//! `framebuffer` holds the colours, line patterns and pixel buffers that the
//! display draws, `ui` the decisions of the display refresh loop, `fuzz`
//! the checks that the fuzzing harness makes on parsed diagnostic messages,
//! and `split` the de-duplication of messages when a capture is split into
//! fuzzing seeds.
pub mod framebuffer;
pub mod ui;
pub mod fuzz;
pub mod split;
