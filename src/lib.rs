//! In-memory task lifecycle and event broadcast hub for an agent service.
//!
//! Tasks move through a small state machine, push-notification settings are
//! kept per task, and status/artifact updates fan out to per-task subscribers
//! that hold bounded buffers.

pub mod state;
pub mod model;
pub mod keyed;
pub mod error;
pub mod store;
pub mod notify;
pub mod event;
pub mod subs;
pub mod handler;
