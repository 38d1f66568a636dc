//! Command protocol and motor state machine for a remote-controlled
//! two-motor differential drive.
//!
//! A network transport delivers short textual commands such as `fwd-down`
//! or `left`. The [`command`] module decodes and parses such a payload into
//! a [`command::DriveIntent`]; the [`motor`] module owns the logical state
//! of the two drive motors and applies direction and enable changes as
//! paired writes; the [`session`] module ties the two together at the
//! message-handling boundary, enforcing the payload size limit and the
//! drop-on-decode-failure policy.

pub mod command;
pub mod motor;
pub mod session;
