//! Scheduling.

pub mod rr;
