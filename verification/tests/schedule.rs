use speedy::scheduler::{plan_tick, tick_now, Retry};
use speedy::timetable::{parse, validate, ScheduleError, Table};

fn window(start_hour: u8, end_hour: u8, duration_seconds: u64) -> Table {
    Table { start_hour, end_hour, duration_seconds }
}

#[test]
fn test_parse_single_line() {
    let result = parse("    0-1 5m");
    assert!(result.is_ok());
    let data = result.unwrap();

    assert_eq!(1, data.len());
    assert_eq!(0_u8, data[0].start_hour);
    assert_eq!(1_u8, data[0].end_hour);
}

#[test]
fn parse_multi_line_in_order() {
    let data = parse("0-1 5m\n2-5 1h\n12-23 30s").unwrap();
    assert_eq!(
        data,
        vec![window(0, 1, 300), window(2, 5, 3600), window(12, 23, 30)]
    );
}

#[test]
fn parse_trailing_newline_accepted() {
    let data = parse("0-1 5m\n").unwrap();
    assert_eq!(data, vec![window(0, 1, 300)]);
}

#[test]
fn parse_crlf_line_endings() {
    let data = parse("0-1 5m\r\n2-5 1h\r\n").unwrap();
    assert_eq!(data, vec![window(0, 1, 300), window(2, 5, 3600)]);
}

#[test]
fn parse_midnight_normalized_to_24() {
    let data = parse("12-0 1h").unwrap();
    assert_eq!(data, vec![window(12, 24, 3600)]);
}

#[test]
fn parse_empty_input_fails() {
    assert_eq!(parse(""), Err(ScheduleError::Syntax));
}

#[test]
fn parse_malformed_line_fails_whole_document() {
    assert_eq!(parse("0-1 5m\nbogus"), Err(ScheduleError::Syntax));
    assert_eq!(parse("bogus\n0-1 5m"), Err(ScheduleError::Syntax));
    assert_eq!(parse("0-1 5m\n\n2-5 1h"), Err(ScheduleError::Syntax));
}

#[test]
fn parse_rejects_bad_tokens() {
    assert_eq!(parse("0-x 5m"), Err(ScheduleError::Syntax));
    assert_eq!(parse("0-1 5q"), Err(ScheduleError::Syntax));
    assert_eq!(parse("0-1 -5m"), Err(ScheduleError::Syntax));
    assert_eq!(parse("0-1"), Err(ScheduleError::Syntax));
    assert_eq!(parse("0-15m"), Err(ScheduleError::Syntax));
    assert_eq!(parse("300-1 5m"), Err(ScheduleError::Syntax));
}

#[test]
fn parse_rejects_out_of_range_hours() {
    assert_eq!(parse("24-1 1h"), Err(ScheduleError::Syntax));
    assert_eq!(parse("25-26 1h"), Err(ScheduleError::Syntax));
    assert_eq!(parse("12-25 1h"), Err(ScheduleError::Syntax));
    assert_eq!(parse("23-24 1h"), Ok(vec![window(23, 24, 3600)]));
}

#[test]
fn parse_tolerates_leading_blanks() {
    let data = parse("\t 7-9   2h").unwrap();
    assert_eq!(data, vec![window(7, 9, 7200)]);
}

#[test]
fn validate_accepts_fitting_periods() {
    let tables = vec![window(2, 5, 3600), window(0, 24, 86400), window(0, 1, 30)];
    assert_eq!(validate(&tables), Ok(()));
}

#[test]
fn validate_rejects_whole_set_on_one_bad_window() {
    let tables = vec![window(0, 1, 5 * 3600), window(2, 5, 3600)];
    assert_eq!(
        validate(&tables),
        Err(ScheduleError::Semantic(vec![window(0, 1, 5 * 3600)]))
    );
}

#[test]
fn validate_collects_every_invalid_window_in_order() {
    let tables = vec![
        window(0, 1, 5 * 3600),
        window(2, 5, 3600),
        window(5, 6, 2 * 3600),
    ];
    assert_eq!(
        validate(&tables),
        Err(ScheduleError::Semantic(vec![
            window(0, 1, 5 * 3600),
            window(5, 6, 2 * 3600),
        ]))
    );
}

#[test]
fn window_skips_outside_hours() {
    let t = window(9, 17, 3600);
    let tick = plan_tick(&t, 20);
    assert!(!tick.fire);
    assert_eq!(tick.sleep_seconds, 3600);
}

#[test]
fn window_fires_inside_hours() {
    let t = window(9, 17, 3600);
    assert!(plan_tick(&t, 9).fire);
    assert!(plan_tick(&t, 16).fire);
    assert!(!plan_tick(&t, 17).fire);
    assert!(!plan_tick(&t, 8).fire);
}

#[test]
fn tick_now_always_sleeps_the_period() {
    let always = window(0, 24, 60);
    let never = window(5, 5, 60);
    let t1 = tick_now(&always);
    assert!(t1.fire);
    assert_eq!(t1.sleep_seconds, 60);
    let t2 = tick_now(&never);
    assert!(!t2.fire);
    assert_eq!(t2.sleep_seconds, 60);
}

#[test]
fn retry_exhaustion_attempts_exactly_three_times() {
    let mut retry = Retry::new(3);
    let mut attempts = 0;
    while retry.should_attempt() {
        attempts += 1;
        let tool_always_fails = false;
        retry.record(tool_always_fails);
    }
    assert_eq!(attempts, 3);
    assert_eq!(retry.outcome(), Err(speedy::iperf3::Error::Canceled));
}

#[test]
fn retry_stops_at_first_success() {
    let mut retry = Retry::new(3);
    let mut attempts = 0;
    while retry.should_attempt() {
        attempts += 1;
        retry.record(attempts == 2);
    }
    assert_eq!(attempts, 2);
    assert_eq!(retry.outcome(), Ok(()));
}
