//! Click-driven screen capture: the recording core.
//!
//! Every left click made during a recording session yields one annotated
//! screenshot. This crate holds the parts of that pipeline that decide and
//! compute: which screen a click belongs to, how input events are queued and
//! dispatched, how the marker is drawn on a captured frame, and how finished
//! actions accumulate in the log. Listening to the operating system, grabbing
//! the screen, threads and the window are left to the program around it.
//!
//! - [`screen`]: the geometry of the displays and the screen of a click
//! - [`event`]: the raw input events
//! - [`bridge`]: the bounded queue between the input hook and the dispatcher
//! - [`dispatcher`]: the state machine that turns events into capture requests
//! - [`registry`], [`session`]: the workers in flight and the session's stop
//! - [`pixel`], [`frame`]: blending, frames and the marker
//! - [`codec`], [`worker`]: decoding, encoding and the work of one capture
//! - [`action_log`]: the actions and their ordered log
//! - [`export`]: the documents made of a finished log
//! - [`error`]: the failures and how far each reaches

pub mod action_log;
pub mod bridge;
pub mod codec;
pub mod dispatcher;
pub mod error;
pub mod event;
pub mod export;
pub mod frame;
pub mod pixel;
pub mod registry;
pub mod screen;
pub mod session;
pub mod worker;
