use std::time::Duration;
use timeout_macro_parse::duration::Duration as Elapsed;
use timeout_macro_parse::parse_duration::{parse_duration, DurationError};

fn std_of(d: Elapsed) -> Duration {
    Duration::new(d.as_secs(), d.subsec_nanos())
}

fn parsed(text: &str) -> Duration {
    std_of(parse_duration(text).unwrap())
}

#[test]
fn parse_reasonable_durations() {
    let hours = parsed("3h");
    assert_eq!(hours, Duration::from_secs(3 * 3600));
    let minutes = parsed("11m");
    assert_eq!(minutes, Duration::from_secs(11 * 60));
    let seconds = parsed("55s");
    assert_eq!(seconds, Duration::from_secs(55));
    let millis = parsed("100ms");
    assert_eq!(millis, Duration::from_millis(100));
    let combined = "1h2m3s4ms";
    let dur = parsed(combined);
    let expect = Duration::from_secs(3600)
        + Duration::from_secs(120)
        + Duration::from_secs(3)
        + Duration::from_millis(4);
    assert_eq!(dur, expect);
}

#[test]
fn parse_unreasonable_additive_durations() {
    let dur = "1h1h1h1h";
    let dur = parsed(dur);
    assert_eq!(Duration::from_secs(3600 * 4), dur);
    let dur = "1m1m1m";
    let dur = parsed(dur);
    assert_eq!(Duration::from_secs(60 * 3), dur);
    let dur = "1s1s";
    let dur = parsed(dur);
    assert_eq!(Duration::from_secs(2), dur);
    let dur = "1ms1ms1ms1ms1ms1ms1ms";
    let dur = parsed(dur);
    assert_eq!(Duration::from_millis(7), dur);
    let dur = "5ms2s1h5ms1m1s";
    let dur = parsed(dur);
    assert_eq!(
        Duration::from_millis(10) + Duration::from_secs(63) + Duration::from_secs(3600),
        dur
    );
}

#[test]
fn quotes_around_the_literal_are_dropped() {
    assert_eq!(parsed("\"1ms\""), Duration::from_millis(1));
    assert_eq!(parsed("\"\"2s\""), Duration::from_secs(2));
}

#[test]
fn concatenated_literals_add_up() {
    let a = parsed("1h20m");
    let b = parsed("5s125ms");
    assert_eq!(parsed("1h20m5s125ms"), a + b);
}

#[test]
fn empty_literal_is_zero() {
    assert_eq!(parse_duration(""), Err(DurationError::ZeroDuration));
    assert_eq!(parse_duration("\"\""), Err(DurationError::ZeroDuration));
}

#[test]
fn zero_literal_is_refused() {
    assert_eq!(parse_duration("0s"), Err(DurationError::ZeroDuration));
    assert_eq!(parse_duration("0h0m0s0ms"), Err(DurationError::ZeroDuration));
    assert_eq!(parse_duration("5"), Err(DurationError::ZeroDuration));
}

#[test]
fn unknown_unit_is_refused() {
    assert_eq!(parse_duration("1z"), Err(DurationError::UnknownUnit('z')));
    assert_eq!(parse_duration("1s2d"), Err(DurationError::UnknownUnit('d')));
    assert_eq!(parse_duration("1é"), Err(DurationError::UnknownUnit('é')));
}

#[test]
fn unit_without_number_is_refused() {
    assert_eq!(parse_duration("s"), Err(DurationError::EmptyNumericSection));
    assert_eq!(parse_duration("1mm"), Err(DurationError::EmptyNumericSection));
    assert_eq!(parse_duration("1hh"), Err(DurationError::EmptyNumericSection));
}

#[test]
fn trailing_number_is_unfinished() {
    assert_eq!(parse_duration("1s5"), Err(DurationError::UnfinishedCalculation));
    assert_eq!(parse_duration("2m10"), Err(DurationError::UnfinishedCalculation));
}

#[test]
fn malformed_number_is_refused() {
    assert_eq!(parse_duration("1.5s"), Err(DurationError::InvalidNumber));
    assert_eq!(parse_duration("+5s"), Err(DurationError::InvalidNumber));
    assert_eq!(parse_duration("1 s"), Err(DurationError::InvalidNumber));
    assert_eq!(
        parse_duration("18446744073709551616s"),
        Err(DurationError::InvalidNumber)
    );
}

#[test]
fn minute_then_digit_is_not_milliseconds() {
    assert_eq!(parsed("1m5s"), Duration::from_secs(65));
    assert_eq!(parsed("1ms5m"), Duration::from_millis(300_001));
}

#[test]
fn huge_durations_saturate() {
    assert_eq!(parsed("18446744073709551615h"), Duration::MAX);
    assert_eq!(
        parsed("18446744073709551615s1s"),
        Duration::MAX
    );
    assert_eq!(
        parsed("18446744073709551615s999ms"),
        Duration::new(u64::MAX, 999_000_000)
    );
}

#[test]
fn duration_arithmetic() {
    assert_eq!(std_of(Elapsed::from_millis(1500)), Duration::from_millis(1500));
    assert_eq!(Elapsed::from_millis(1500).as_secs(), 1);
    assert_eq!(Elapsed::from_millis(1500).subsec_nanos(), 500_000_000);
    let sum = Elapsed::from_millis(700).saturating_add(Elapsed::from_millis(800));
    assert_eq!(std_of(sum), Duration::from_millis(1500));
    let top = Elapsed::max_value().saturating_add(Elapsed::from_secs(1));
    assert_eq!(std_of(top), Duration::MAX);
    assert!(Elapsed::zero().is_zero());
    assert!(!Elapsed::from_millis(1).is_zero());
}

#[test]
fn duration_error_messages() {
    assert_eq!(
        DurationError::UnknownUnit('z').message(),
        "unknown unit start: 'z'"
    );
    assert_eq!(DurationError::ZeroDuration.message(), "duration adds up to zero");
}
