//! Planning one measurement attempt with the external bandwidth tool.
//!
//! An endpoint is written `address[:port[:weight]]`: the address up to the
//! first `:`, the port up to the second (the tool's default port `5001` when
//! no `:` is present), and a decimal weight after the second (`0` when
//! absent; anything else malformed aborts pool construction). One endpoint
//! is drawn from the pool with probability proportional to its weight, so a
//! zero-weight endpoint is never selected, and a pool whose weights are all
//! zero is refused outright.
//!
//! The attempt itself is planned here and performed by the adapter around
//! the library: the exact tool command line, the watchdog bound of the
//! requested duration plus a fixed three-second grace, and the verdict over
//! whatever came back — watchdog expiry, a failing exit, an unreadable
//! report, or samples.

use vstd::prelude::*;
use vstd::pervasive::unreached;

use rand::RngExt;

use crate::digits::{
    count_from, dec_val_range, digit_pred, lemma_count_from, scan_number,
};
use crate::digits::{i64_to_string, int_str};
use crate::influxdb::Direction;
use crate::models::{MeasurementResult, Sample};

verus! {

/// How an attempt, or the pool it draws from, can fail.
#[derive(Debug, Clone, PartialEq, Eq)]
pub enum Error {
    /// The tool exited with failure: its raw output, and the endpoint used.
    Command(String, String),
    /// The endpoint string is empty.
    InvalidServerFormat,
    /// The weight part of an endpoint is not a decimal number that fits.
    InvalidWeight,
    /// The measurement tool is not installed.
    IperfCommandDoesNotExist,
    /// Every endpoint in the pool has weight zero, or the pool is empty.
    NoEndpointsAvailable,
    /// The tool succeeded but its report could not be decoded.
    MalformedOutput,
    /// The watchdog cancelled the attempt, or every retry failed.
    Canceled,
}

/// One measurement target: where to connect, and how likely the weighted
/// draw is to choose it.
#[derive(Debug, Clone, PartialEq, Eq)]
pub struct Endpoint {
    pub address: String,
    pub port: String,
    pub weight: u32,
}

/// Everything up to a colon.
pub open spec fn not_colon_pred() -> spec_fn(char) -> bool {
    |c: char| c != ':'
}

/// Position of the first `:` of `s`, or its length.
pub open spec fn colon1(s: Seq<char>) -> int {
    count_from(s, 0, not_colon_pred()) as int
}

/// Position of the second `:` of `s`, or its length (meaningful when the
/// first colon exists).
pub open spec fn colon2(s: Seq<char>) -> int {
    colon1(s) + 1 + count_from(s, colon1(s) + 1, not_colon_pred())
}

/// The address part: everything before the first `:`.
pub open spec fn ep_addr(s: Seq<char>) -> Seq<char> {
    s.subrange(0, colon1(s))
}

/// The port part: between the first and second `:`, or the tool's default
/// port when there is no `:` at all.
pub open spec fn ep_port(s: Seq<char>) -> Seq<char> {
    if colon1(s) >= s.len() {
        "5001"@
    } else {
        s.subrange(colon1(s) + 1, colon2(s))
    }
}

/// The weight: absent (zero) without a second `:`; otherwise the rest of
/// `s`, which must be all digits and fit in `u32`, or the endpoint is
/// malformed.
pub open spec fn ep_weight(s: Seq<char>) -> Option<u32> {
    if colon1(s) >= s.len() || colon2(s) >= s.len() {
        Some(0u32)
    } else {
        let lo = colon2(s) + 1;
        let d = count_from(s, lo, digit_pred());
        let v = dec_val_range(s, lo, lo + d);
        if d == 0 || lo + d != s.len() || v > u32::MAX {
            None
        } else {
            Some(v as u32)
        }
    }
}

/// A well-formed endpoint string: non-empty, with a readable weight.
pub open spec fn ep_ok(s: Seq<char>) -> bool {
    s.len() > 0 && ep_weight(s) is Some
}

/// The error a malformed endpoint string earns.
pub open spec fn ep_err(s: Seq<char>) -> Error {
    if s.len() == 0 {
        Error::InvalidServerFormat
    } else {
        Error::InvalidWeight
    }
}

/// The weight of a well-formed endpoint string (zero otherwise).
pub open spec fn ep_weight_val(s: Seq<char>) -> u32 {
    match ep_weight(s) {
        Some(w) => w,
        None => 0u32,
    }
}

/// The weights of a pool, endpoint by endpoint.
pub open spec fn pool_weights(servers: Seq<String>) -> Seq<u32> {
    servers.map_values(|s: String| ep_weight_val(s@))
}

/// Scans from `from` to the next `:` (or the end).
fn scan_not_colon(s: &str, from: usize, n: usize) -> (r: usize)
    requires
        n == s@.len(),
        from <= n,
    ensures
        from <= r <= n,
        r as int == from + count_from(s@, from as int, not_colon_pred()),
{
    let mut j = from;
    while j < n && s.get_char(j) != ':'
        invariant
            from <= j <= n,
            n == s@.len(),
            forall|m: int| from <= m < j ==> s@[m] != ':',
        decreases n - j,
    {
        j += 1;
    }
    proof {
        lemma_count_from(s@, from as int, j as int, not_colon_pred());
    }
    j
}

/// Splits an endpoint string into address and port, exactly as [`ep_addr`]
/// and [`ep_port`] read it; only the empty string is refused.
pub fn parse_server(server: &str) -> (r: Result<(String, String), Error>)
    ensures
        match r {
            Ok(ap) => server@.len() > 0 && ap.0@ == ep_addr(server@) && ap.1@ == ep_port(
                server@,
            ),
            Err(e) => server@.len() == 0 && e == Error::InvalidServerFormat,
        },
{
    let n = server.unicode_len();
    if n == 0 {
        return Err(Error::InvalidServerFormat);
    }
    let c1 = scan_not_colon(server, 0, n);
    let address = server.substring_char(0, c1).to_owned();
    if c1 == n {
        Ok((address, "5001".to_owned()))
    } else {
        let c2 = scan_not_colon(server, c1 + 1, n);
        let port = server.substring_char(c1 + 1, c2).to_owned();
        Ok((address, port))
    }
}

/// Reads the weight part of an endpoint string, exactly as [`ep_weight`]
/// reads it.
fn parse_weight(s: &str) -> (r: Result<u32, Error>)
    ensures
        match r {
            Ok(w) => ep_ok(s@) && w == ep_weight_val(s@),
            Err(e) => !ep_ok(s@) && e == ep_err(s@),
        },
{
    let n = s.unicode_len();
    if n == 0 {
        return Err(Error::InvalidServerFormat);
    }
    let c1 = scan_not_colon(s, 0, n);
    if c1 == n {
        return Ok(0);
    }
    let c2 = scan_not_colon(s, c1 + 1, n);
    if c2 == n {
        return Ok(0);
    }
    let (end, v_opt) = scan_number(s, c2 + 1, n);
    if end == c2 + 1 || end != n {
        return Err(Error::InvalidWeight);
    }
    match v_opt {
        None => Err(Error::InvalidWeight),
        Some(v) => {
            if v > u32::MAX as u64 {
                Err(Error::InvalidWeight)
            } else {
                Ok(v as u32)
            }
        },
    }
}

/// Parses one endpoint: address, port, and weight, or the error the string
/// earns — empty strings are malformed, and so is any unreadable weight.
pub fn parse_endpoint(s: &str) -> (r: Result<Endpoint, Error>)
    ensures
        match r {
            Ok(ep) => ep_ok(s@) && ep.address@ == ep_addr(s@) && ep.port@ == ep_port(s@)
                && ep.weight == ep_weight_val(s@),
            Err(e) => !ep_ok(s@) && e == ep_err(s@),
        },
{
    let weight = match parse_weight(s) {
        Ok(w) => w,
        Err(e) => {
            return Err(e);
        },
    };
    match parse_server(s) {
        Ok((address, port)) => Ok(Endpoint { address, port, weight }),
        Err(_) => unreached(),
    }
}

/// Sum of the first `i` weights.
pub open spec fn prefix_weight(ws: Seq<u32>, i: int) -> int
    decreases i,
{
    if i <= 0 {
        0
    } else {
        prefix_weight(ws, i - 1) + ws[i - 1]
    }
}

/// Sum of all weights of a pool.
pub open spec fn total_weight(ws: Seq<u32>) -> int {
    prefix_weight(ws, ws.len() as int)
}

/// Weight prefix sums only grow.
pub proof fn lemma_prefix_weight_mono(ws: Seq<u32>, i: int, j: int)
    requires
        0 <= i <= j,
    ensures
        prefix_weight(ws, i) <= prefix_weight(ws, j),
    decreases j,
{
    if j > i {
        lemma_prefix_weight_mono(ws, i, j - 1);
    }
}

/// The weighted draw itself: returns the index whose cumulative-weight band
/// contains `r`. An index can only be returned if its own weight is
/// positive, so a zero-weight entry is never selected.
pub fn pick_index(weights: &Vec<u32>, r: u64) -> (i: usize)
    requires
        total_weight(weights@) <= u64::MAX,
        (r as int) < total_weight(weights@),
    ensures
        i < weights@.len(),
        weights@[i as int] > 0,
        prefix_weight(weights@, i as int) <= r as int,
        (r as int) < prefix_weight(weights@, i as int + 1),
{
    let mut acc: u64 = 0;
    let mut i: usize = 0;
    while i < weights.len()
        invariant
            i <= weights@.len(),
            acc as int == prefix_weight(weights@, i as int),
            acc <= r,
            total_weight(weights@) <= u64::MAX,
            (r as int) < total_weight(weights@),
        decreases weights@.len() - i,
    {
        let w = weights[i];
        proof {
            lemma_prefix_weight_mono(weights@, i as int + 1, weights@.len() as int);
        }
        let acc2 = acc + (w as u64);
        if r < acc2 {
            return i;
        }
        acc = acc2;
        i += 1;
    }
    proof {
        assert(false);
    }
    unreached()
}

/// Relies on rand::rng and rand::RngExt::random_range: a draw from the
/// non-empty range `0..bound` lies below `bound`.
#[verifier::external_body]
fn random_below(bound: u64) -> (r: u64)
    requires
        bound > 0,
    ensures
        r < bound,
{
    rand::rng().random_range(0..bound)
}

/// Draws one endpoint from the pool, with probability proportional to its
/// weight, and returns its address and port. Fails — without drawing — when
/// some endpoint is malformed (reporting the first such), when every weight
/// is zero, or when the summed weights do not fit in `u64`.
pub fn pick_server(servers: &Vec<String>) -> (r: Result<(String, String), Error>)
    ensures
        match r {
            Ok(ap) => {
                &&& forall|i: int|
                    0 <= i < servers@.len() ==> #[trigger] ep_ok(servers@[i]@)
                &&& 0 < total_weight(pool_weights(servers@)) <= u64::MAX
                &&& exists|i: int|
                    0 <= i < servers@.len() && #[trigger] ep_weight_val(servers@[i]@) > 0
                        && ap.0@ == ep_addr(servers@[i]@) && ap.1@ == ep_port(servers@[i]@)
            },
            Err(e) => {
                ||| exists|i: int|
                    0 <= i < servers@.len() && !(#[trigger] ep_ok(servers@[i]@)) && e == ep_err(
                        servers@[i]@,
                    ) && (forall|j: int| 0 <= j < i ==> #[trigger] ep_ok(servers@[j]@))
                ||| ((forall|i: int| 0 <= i < servers@.len() ==> #[trigger] ep_ok(servers@[i]@))
                    && total_weight(pool_weights(servers@)) == 0
                    && e == Error::NoEndpointsAvailable)
                ||| ((forall|i: int| 0 <= i < servers@.len() ==> #[trigger] ep_ok(servers@[i]@))
                    && total_weight(pool_weights(servers@)) > u64::MAX
                    && e == Error::InvalidWeight)
            },
        },
{
    let mut weights: Vec<u32> = Vec::new();
    let mut k: usize = 0;
    while k < servers.len()
        invariant
            k <= servers@.len(),
            weights@.len() == k,
            forall|j: int| 0 <= j < k ==> #[trigger] ep_ok(servers@[j]@),
            forall|j: int|
                0 <= j < k ==> #[trigger] weights@[j] == ep_weight_val(servers@[j]@),
        decreases servers@.len() - k,
    {
        match parse_weight(servers[k].as_str()) {
            Ok(w) => {
                weights.push(w);
            },
            Err(e) => {
                return Err(e);
            },
        }
        k += 1;
    }
    proof {
        assert(weights@ =~= pool_weights(servers@));
    }
    let mut total: u64 = 0;
    let mut i: usize = 0;
    while i < weights.len()
        invariant
            i <= weights@.len(),
            total as int == prefix_weight(weights@, i as int),
            weights@ == pool_weights(servers@),
            forall|j: int| 0 <= j < servers@.len() ==> #[trigger] ep_ok(servers@[j]@),
            forall|j: int|
                0 <= j < weights@.len() ==> #[trigger] weights@[j] == ep_weight_val(
                    servers@[j]@,
                ),
        decreases weights@.len() - i,
    {
        let grown = total.checked_add(weights[i] as u64);
        match grown {
            Some(t) => {
                total = t;
            },
            None => {
                proof {
                    lemma_prefix_weight_mono(weights@, i as int + 1, weights@.len() as int);
                }
                return Err(Error::InvalidWeight);
            },
        }
        i += 1;
    }
    if total == 0 {
        return Err(Error::NoEndpointsAvailable);
    }
    let draw = random_below(total);
    let idx = pick_index(&weights, draw);
    match parse_server(servers[idx].as_str()) {
        Ok(ap) => Ok(ap),
        Err(_) => unreached(),
    }
}

/// The duration actually requested from the tool: the caller's duration
/// shortened by the fixed connection-setup headroom — 5 s when more than
/// 10 s was asked, else 2 s.
pub open spec fn spec_effective_duration(duration: int) -> int {
    if duration > 10 {
        duration - 5
    } else {
        duration - 2
    }
}

/// Applies the fixed setup headroom, exactly as
/// [`spec_effective_duration`] states it.
pub fn effective_duration(duration: i32) -> (r: i32)
    requires
        duration >= i32::MIN + 5,
    ensures
        r == spec_effective_duration(duration as int),
{
    if duration > 10 {
        duration - 5
    } else {
        duration - 2
    }
}

/// The watchdog bound for one attempt: the requested duration plus the
/// fixed three-second grace.
pub fn watchdog_seconds(duration: i32) -> (r: u64)
    requires
        0 <= duration,
        duration <= i32::MAX - 3,
    ensures
        r == duration + 3,
{
    (duration + 3) as u64
}

/// The tool's command line for one attempt: JSON output, one-second
/// intervals, a half-second connect timeout, the shortened duration, the
/// reverse flag exactly when downloading, and the chosen endpoint.
pub open spec fn spec_iperf3_args(
    addr: Seq<char>,
    port: Seq<char>,
    duration: int,
    download: bool,
) -> Seq<Seq<char>> {
    seq![
        "-J"@,
        "-Z"@,
        "--connect-timeout"@,
        "500"@,
        "-i"@,
        "1"@,
        "-t"@,
        int_str(spec_effective_duration(duration)) + "s"@,
        if download {
            "-R"@
        } else {
            ""@
        },
        "-c"@,
        addr,
        "-p"@,
        port,
    ]
}

/// Builds the tool's argument list, exactly as [`spec_iperf3_args`] states
/// it.
pub fn build_iperf3_args(addr: &str, port: &str, duration: i32, download: bool) -> (r: Vec<
    String,
>)
    requires
        duration >= i32::MIN + 5,
    ensures
        r@.map_values(|s: String| s@) == spec_iperf3_args(addr@, port@, duration as int, download),
{
    let mut args: Vec<String> = Vec::new();
    args.push("-J".to_owned());
    args.push("-Z".to_owned());
    args.push("--connect-timeout".to_owned());
    args.push("500".to_owned());
    args.push("-i".to_owned());
    args.push("1".to_owned());
    args.push("-t".to_owned());
    let eff = effective_duration(duration);
    let dur = i64_to_string(eff as i64).concat("s");
    args.push(dur);
    args.push(if download {
        "-R".to_owned()
    } else {
        "".to_owned()
    });
    args.push("-c".to_owned());
    args.push(addr.to_owned());
    args.push("-p".to_owned());
    args.push(port.to_owned());
    proof {
        assert(args@.map_values(|s: String| s@) =~~= spec_iperf3_args(
            addr@,
            port@,
            duration as int,
            download,
        ));
    }
    args
}

/// The verdict of one attempt, in the order the race resolves: watchdog
/// expiry cancels the attempt; then a failing exit carries the raw output
/// and the endpoint; then an undecodable report; and otherwise the samples.
pub open spec fn spec_attempt_outcome(
    cancelled: bool,
    exit_success: bool,
    report: Option<Vec<Sample>>,
    raw_output: String,
    endpoint: String,
    direction: Direction,
) -> Result<MeasurementResult, Error> {
    if cancelled {
        Err(Error::Canceled)
    } else if !exit_success {
        Err(Error::Command(raw_output, endpoint))
    } else {
        match report {
            None => Err(Error::MalformedOutput),
            Some(samples) => Ok(MeasurementResult { direction, samples }),
        }
    }
}

/// Classifies what came back from one bounded attempt, exactly as
/// [`spec_attempt_outcome`] states it: `cancelled` says the watchdog won
/// the race, `exit_success` reports the tool's exit status, and `report`
/// holds the decoded samples when the output had the expected shape.
pub fn attempt_outcome(
    cancelled: bool,
    exit_success: bool,
    report: Option<Vec<Sample>>,
    raw_output: String,
    endpoint: String,
    direction: Direction,
) -> (r: Result<MeasurementResult, Error>)
    ensures
        r == spec_attempt_outcome(cancelled, exit_success, report, raw_output, endpoint, direction),
{
    if cancelled {
        Err(Error::Canceled)
    } else if !exit_success {
        Err(Error::Command(raw_output, endpoint))
    } else {
        match report {
            None => Err(Error::MalformedOutput),
            Some(samples) => Ok(MeasurementResult { direction, samples }),
        }
    }
}

} // verus!
