use speedy::digits::{i64_to_string, u64_to_string};
use speedy::influxdb::{speeds_of, Client, Direction, Speed};
use speedy::iperf3::{
    attempt_outcome, build_iperf3_args, effective_duration, parse_endpoint, parse_server,
    pick_server, watchdog_seconds, Error,
};
use speedy::models::Sample;

#[test]
fn decimal_rendering() {
    assert_eq!(u64_to_string(0), "0");
    assert_eq!(u64_to_string(7), "7");
    assert_eq!(u64_to_string(1234), "1234");
    assert_eq!(i64_to_string(-45), "-45");
    assert_eq!(i64_to_string(10), "10");
}

#[test]
fn parse_server_splits_address_and_port() {
    assert_eq!(
        parse_server("host"),
        Ok(("host".to_string(), "5001".to_string()))
    );
    assert_eq!(
        parse_server("host:1234"),
        Ok(("host".to_string(), "1234".to_string()))
    );
    assert_eq!(
        parse_server("host:1234:7"),
        Ok(("host".to_string(), "1234".to_string()))
    );
    assert_eq!(parse_server(""), Err(Error::InvalidServerFormat));
}

#[test]
fn parse_endpoint_reads_weight() {
    let ep = parse_endpoint("host:1234:7").unwrap();
    assert_eq!(ep.address, "host");
    assert_eq!(ep.port, "1234");
    assert_eq!(ep.weight, 7);

    let ep = parse_endpoint("host").unwrap();
    assert_eq!(ep.port, "5001");
    assert_eq!(ep.weight, 0);

    let ep = parse_endpoint("host:1234").unwrap();
    assert_eq!(ep.port, "1234");
    assert_eq!(ep.weight, 0);
}

#[test]
fn parse_endpoint_rejects_bad_weights() {
    assert_eq!(parse_endpoint("host:1234:x"), Err(Error::InvalidWeight));
    assert_eq!(parse_endpoint("host:1234:"), Err(Error::InvalidWeight));
    assert_eq!(parse_endpoint("host:1234:1:2"), Err(Error::InvalidWeight));
    assert_eq!(
        parse_endpoint("host:1234:99999999999"),
        Err(Error::InvalidWeight)
    );
    assert_eq!(parse_endpoint(""), Err(Error::InvalidServerFormat));
}

#[test]
fn weighted_draw_never_picks_zero_weight() {
    let servers = vec!["zero:5001:0".to_string(), "ten:5001:10".to_string()];
    for _ in 0..200 {
        let picked = pick_server(&servers).unwrap();
        assert_eq!(picked, ("ten".to_string(), "5001".to_string()));
    }
}

#[test]
fn all_zero_weights_are_rejected() {
    let servers = vec!["a:5001:0".to_string(), "b:5001".to_string()];
    assert_eq!(pick_server(&servers), Err(Error::NoEndpointsAvailable));
    let empty: Vec<String> = Vec::new();
    assert_eq!(pick_server(&empty), Err(Error::NoEndpointsAvailable));
}

#[test]
fn malformed_pool_entry_fails_the_draw() {
    let servers = vec!["a:5001:1".to_string(), "b:5001:x".to_string()];
    assert_eq!(pick_server(&servers), Err(Error::InvalidWeight));
    let servers = vec!["".to_string(), "b:5001:1".to_string()];
    assert_eq!(pick_server(&servers), Err(Error::InvalidServerFormat));
}

#[test]
fn duration_headroom_is_fixed() {
    assert_eq!(effective_duration(7), 5);
    assert_eq!(effective_duration(10), 8);
    assert_eq!(effective_duration(11), 6);
    assert_eq!(effective_duration(30), 25);
}

#[test]
fn watchdog_adds_three_seconds_grace() {
    assert_eq!(watchdog_seconds(7), 10);
    assert_eq!(watchdog_seconds(0), 3);
}

#[test]
fn tool_arguments_are_exact() {
    let args = build_iperf3_args("host", "5001", 7, true);
    assert_eq!(
        args,
        vec![
            "-J", "-Z", "--connect-timeout", "500", "-i", "1", "-t", "5s", "-R", "-c", "host",
            "-p", "5001",
        ]
    );

    let args = build_iperf3_args("h", "5002", 30, false);
    assert_eq!(args[7], "25s");
    assert_eq!(args[8], "");

    let args = build_iperf3_args("h", "5002", 1, false);
    assert_eq!(args[7], "-1s");
}

#[test]
fn watchdog_expiry_resolves_cancelled() {
    let r = attempt_outcome(
        true,
        true,
        Some(vec![]),
        "ignored".to_string(),
        "host:5001".to_string(),
        Direction::Download,
    );
    assert_eq!(r, Err(Error::Canceled));
}

#[test]
fn failing_exit_carries_raw_output_and_endpoint() {
    let r = attempt_outcome(
        false,
        false,
        None,
        "boom".to_string(),
        "host:5001".to_string(),
        Direction::Upload,
    );
    assert_eq!(
        r,
        Err(Error::Command("boom".to_string(), "host:5001".to_string()))
    );
}

#[test]
fn undecodable_report_is_malformed_output() {
    let r = attempt_outcome(
        false,
        true,
        None,
        "not json".to_string(),
        "host:5001".to_string(),
        Direction::Download,
    );
    assert_eq!(r, Err(Error::MalformedOutput));
}

#[test]
fn good_report_yields_samples() {
    let samples = vec![
        Sample { offset_seconds: 0, bits_per_second: 100 },
        Sample { offset_seconds: 1, bits_per_second: 200 },
    ];
    let r = attempt_outcome(
        false,
        true,
        Some(samples.clone()),
        String::new(),
        "host:5001".to_string(),
        Direction::Download,
    )
    .unwrap();
    assert_eq!(r.direction, Direction::Download);
    assert_eq!(r.samples, samples);
}

#[test]
fn direction_tags() {
    assert_eq!(Direction::Download.to_string(), "down");
    assert_eq!(Direction::Upload.to_string(), "up");
}

#[test]
fn speeds_are_dated_from_the_base_time() {
    let samples = vec![
        Sample { offset_seconds: 0, bits_per_second: 100 },
        Sample { offset_seconds: 1, bits_per_second: 200 },
    ];
    let rows = speeds_of(&samples, Direction::Download, 1000);
    assert_eq!(rows.len(), 2);
    assert_eq!(rows[0].time_seconds, 1000);
    assert_eq!(rows[0].direction, "down");
    assert_eq!(rows[0].speed, 100);
    assert_eq!(rows[1].time_seconds, 1001);
    assert_eq!(rows[1].speed, 200);
}

#[test]
fn speed_and_client_hold_what_they_are_given() {
    let s = Speed::new(42, Direction::Upload, 9000);
    assert_eq!(s.time_seconds, 42);
    assert_eq!(s.direction, "up");
    assert_eq!(s.speed, 9000);

    let c = Client::new("http://localhost:8086", "network_speeds", "SECRET-REDACTED");
    assert_eq!(c.host, "http://localhost:8086");
    assert_eq!(c.bucket, "network_speeds");
    assert_eq!(c.token, "SECRET-REDACTED");
}

#[test]
fn tool_missing_is_its_own_error() {
    let e = Error::IperfCommandDoesNotExist;
    assert_ne!(e, Error::Canceled);
    assert_eq!(e, Error::IperfCommandDoesNotExist);
}
