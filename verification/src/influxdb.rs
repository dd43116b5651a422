//! The time-series sink, modelled as plain values.
//!
//! The sink itself is an external collaborator; this module holds what the
//! scheduler decides about it: the connection settings it is given, the tag
//! each direction writes under, and how a successful measurement's samples
//! become dated records. The adapter around the library performs the actual
//! write.

use vstd::prelude::*;

use crate::models::Sample;

verus! {

/// Which way the traffic flowed during a measurement.
#[derive(Debug, Clone, Copy, PartialEq, Eq, Structural)]
pub enum Direction {
    Download,
    Upload,
}

impl Direction {
    /// The tag this direction writes under.
    pub open spec fn spec_str(self) -> Seq<char> {
        match self {
            Direction::Download => "down"@,
            Direction::Upload => "up"@,
        }
    }

    /// Renders the sink tag: "down" or "up".
    pub fn to_string(&self) -> (r: String)
        ensures
            r@ == self.spec_str(),
    {
        match self {
            Direction::Download => "down".to_owned(),
            Direction::Upload => "up".to_owned(),
        }
    }
}

/// One record for the sink: a timestamp in Unix seconds, the direction tag,
/// and a rate in bits per second.
#[derive(Debug, Clone, PartialEq, Eq)]
pub struct Speed {
    pub time_seconds: i64,
    pub direction: String,
    pub speed: u64,
}

impl Speed {
    /// Builds one record, tagging it with the direction's sink tag.
    pub fn new(time_seconds: i64, direction: Direction, speed: u64) -> (r: Self)
        ensures
            r.time_seconds == time_seconds,
            r.direction@ == direction.spec_str(),
            r.speed == speed,
    {
        Speed { time_seconds, direction: direction.to_string(), speed }
    }
}

/// The sink's connection settings, as the scheduler carries them: where to
/// write, into which bucket, under which token.
#[derive(Debug, Clone, PartialEq, Eq)]
pub struct Client {
    pub host: String,
    pub bucket: String,
    pub token: String,
}

impl Client {
    /// Stores the connection settings unchanged.
    pub fn new(addr: &str, bucket: &str, token: &str) -> (r: Self)
        ensures
            r.host@ == addr@,
            r.bucket@ == bucket@,
            r.token@ == token@,
    {
        Client { host: addr.to_owned(), bucket: bucket.to_owned(), token: token.to_owned() }
    }
}

/// Dates each sample of one attempt: the record's timestamp is the
/// measurement's base time plus the sample's offset, its value the sample's
/// rate, its tag the direction's.
pub fn speeds_of(samples: &Vec<Sample>, direction: Direction, now_seconds: i64) -> (r: Vec<
    Speed,
>)
    requires
        now_seconds + u32::MAX <= i64::MAX,
    ensures
        r@.len() == samples@.len(),
        forall|i: int|
            0 <= i < samples@.len() ==> {
                &&& (#[trigger] r@[i]).time_seconds == now_seconds + samples@[i].offset_seconds
                &&& r@[i].speed == samples@[i].bits_per_second
                &&& r@[i].direction@ == direction.spec_str()
            },
{
    let mut out: Vec<Speed> = Vec::new();
    let mut k: usize = 0;
    while k < samples.len()
        invariant
            k <= samples@.len(),
            out@.len() == k,
            now_seconds + u32::MAX <= i64::MAX,
            forall|i: int|
                0 <= i < k ==> {
                    &&& (#[trigger] out@[i]).time_seconds == now_seconds
                        + samples@[i].offset_seconds
                    &&& out@[i].speed == samples@[i].bits_per_second
                    &&& out@[i].direction@ == direction.spec_str()
                },
        decreases samples@.len() - k,
    {
        let s = samples[k];
        let stamp: i64 = now_seconds + (s.offset_seconds as i64);
        out.push(Speed::new(stamp, direction, s.bits_per_second));
        k += 1;
    }
    out
}

} // verus!
