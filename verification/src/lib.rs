//! Turns a polled game-controller button into held-key keyboard events.
//!
//! The crate is the decision logic of a small converter: it decodes what the
//! controller reported, detects press and release edges, decides when to poll
//! and which failure to report, and builds the keyboard input records to
//! inject. Talking to the operating system is left to the caller.

pub mod edge;
pub mod scheduler;
pub mod win32_input;
pub mod xinput;
