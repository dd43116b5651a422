//! The measurement tool's report, reduced to plain values.
//!
//! The external tool emits a structured report; the adapter around this
//! library decodes it and hands the scheduler only what it reads: the
//! connection metadata below and, per interval, one [`Sample`]. Rates and
//! offsets arrive as whole numbers (bits per second, whole seconds).

use vstd::prelude::*;

use crate::influxdb::Direction;

verus! {

/// One measured interval: its offset from the start of the attempt and the
/// measured rate.
#[derive(Debug, Clone, Copy, PartialEq, Eq, Structural)]
pub struct Sample {
    pub offset_seconds: u32,
    pub bits_per_second: u64,
}

/// What one successful attempt produced: the direction measured and the
/// per-interval samples, in report order.
#[derive(Debug, Clone, PartialEq, Eq)]
pub struct MeasurementResult {
    pub direction: Direction,
    pub samples: Vec<Sample>,
}

/// One connection the tool reports having opened.
#[derive(Default, Debug, Clone, PartialEq, Eq)]
pub struct Connected {
    pub socket: i64,
    pub local_host: String,
    pub local_port: i64,
    pub remote_host: String,
    pub remote_port: i64,
}

/// The report's own timestamp: a rendering and the Unix seconds.
#[derive(Default, Debug, Clone, PartialEq, Eq)]
pub struct Timestamp {
    pub time: String,
    pub timesecs: i64,
}

/// The target the tool connected to.
#[derive(Default, Debug, Clone, PartialEq, Eq)]
pub struct ConnectingTo {
    pub host: String,
    pub port: i64,
}

/// The test parameters the tool echoes back.
#[derive(Default, Debug, Clone, PartialEq, Eq)]
pub struct TestStart {
    pub protocol: String,
    pub num_streams: i64,
    pub blksize: i64,
    pub omit: i64,
    pub duration: i64,
    pub bytes: i64,
    pub blocks: i64,
    pub reverse: i64,
    pub tos: i64,
    pub target_bitrate: i64,
    pub bidir: i64,
    pub fqrate: i64,
}

/// The header of a report: connections, versions, and test parameters.
#[derive(Default, Debug, Clone, PartialEq, Eq)]
pub struct Start {
    pub connected: Vec<Connected>,
    pub version: String,
    pub system_info: String,
    pub timestamp: Timestamp,
    pub connecting_to: ConnectingTo,
    pub cookie: String,
    pub tcp_mss_default: i64,
    pub target_bitrate: i64,
    pub fq_rate: i64,
    pub sock_bufsize: i64,
    pub sndbuf_actual: i64,
    pub rcvbuf_actual: i64,
    pub test_start: TestStart,
}

} // verus!
