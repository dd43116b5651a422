//! Time-window scheduling and measurement orchestration for a network
//! throughput monitor.
//!
//! The crate parses a line-oriented schedule of daily time windows, validates
//! that each window can hold its sampling period, selects measurement
//! endpoints by weighted random choice, plans bounded and retryable
//! invocations of an external bandwidth-measurement tool, and maps the
//! resulting samples into records for a time-series sink.

pub mod digits;
pub mod influxdb;
pub mod iperf3;
pub mod models;
pub mod scheduler;
pub mod timetable;

use vstd::prelude::*;

verus! {

} // verus!
