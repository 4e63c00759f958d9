//! A periodic process-table monitor, split into the part that decides and the
//! part that acts.
//!
//! The host owns the timer, the lock and the notification sink. This library
//! owns every decision in between: what a process-table row means as a sample,
//! which event is published for it, and what the background loop does next.

pub mod greeting;
pub mod monitor;
pub mod sample;
pub mod snapshot;
pub mod trace;
