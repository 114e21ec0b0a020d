//! Userspace behavioral-monitoring pipeline: decoding of kernel-produced
//! event records, program-identity resolution, a persistent behavior
//! baseline, known-vs-unknown detection and rate-limited alerting.
//!
//! The modules follow the data flow: [`event`] turns a raw ring-buffer
//! record into a typed event; [`identity`] attributes it to a durable
//! program identity; [`syscalls`] fingerprints its arguments and reads or
//! grows the baseline held by [`model`]; [`train`] and [`agent`] are the
//! two operating modes, and [`pipeline`] routes each event to one of them.

pub mod agent;
pub mod event;
pub mod identity;
pub mod model;
pub mod pipeline;
pub mod syscalls;
pub mod train;
