//! Single-instance coordination for a desktop application, without I/O.
//!
//! An application that is launched a second time, say by a link of one of
//! its URL schemes, hands the launch over to the instance that already runs
//! and exits. The instances meet on a named local channel: the one that
//! listens on it is the primary instance, every other is secondary.
//!
//! This crate holds the decisions of that protocol and none of its I/O. The
//! caller connects, binds, accepts, reads and writes; it tells the crate
//! what happened and is told what to do next.
//!
//! - [`connector`]: the role of an instance, and the hand-over of a
//!   secondary instance.
//! - [`listener`]: the listener of the primary instance, with its bounded
//!   restarts; [`runs`] states what holds of all its runs.
//! - [`wire`]: the payload on the wire.
//! - [`identity`]: the write-once name of the channel.
//! - [`activation`]: the key events and the target of the foreground
//!   permission.
//! - [`registration`]: the values that associate URL schemes with the
//!   executable.
//! - [`text`]: cutting text.

pub mod activation;
pub mod connector;
pub mod identity;
pub mod listener;
pub mod registration;
pub mod runs;
pub mod text;
pub mod wire;

pub use crate::connector::prepare;
pub use crate::listener::listen;
pub use crate::registration::{register, unregister};
