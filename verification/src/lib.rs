//! The core of a live camera stream with a steerable servo.
//!
//! One camera produces frames at a bounded rate, any number of connected
//! clients watch them, and each client may turn the one servo that the
//! camera sits on. This crate holds the decisions of that system as plain
//! state with verified transitions; it performs no I/O and never waits.
//! The program around it does the hardware and network work that the
//! transitions ask for and reports back how it went.
//!
//! - [`frame`]: an encoded image with its sequence number and capture time.
//! - [`distributor`]: fan-out of frames to subscribers, one single-frame
//!   mailbox each, the latest frame winning.
//! - [`footage`]: capture configuration, the cycle of capture requests, the
//!   pacing of the capture loop, raw frame extraction and JPEG encoding.
//! - [`command`]: the text commands that clients may send.
//! - [`servo`]: pulse widths for positions, and the queue that orders the
//!   writes to the servo.
//! - [`session`]: the life of one client connection.

pub mod command;
pub mod distributor;
pub mod footage;
pub mod frame;
pub mod servo;
pub mod session;
