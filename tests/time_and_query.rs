use sbb::error::SbbError;
use sbb::query::{connections_url, resolve_args, result_count};
use sbb::time::{days_from_civil_exec, parse_timestamp, Duration, TimeOfDay, Timestamp};

fn ts(year: i32, month: u32, day: u32, hour: u32, minute: u32, second: u32, offset: i32) -> Timestamp {
    Timestamp { year, month, day, hour, minute, second, offset }
}

#[test]
fn parses_timestamp_fields() {
    let t = parse_timestamp("2024-05-01T08:15:00+0200").unwrap();
    assert_eq!(t, ts(2024, 5, 1, 8, 15, 0, 7200));
    let t = parse_timestamp("1999-12-31T23:59:59-0530").unwrap();
    assert_eq!(t, ts(1999, 12, 31, 23, 59, 59, -19800));
}

#[test]
fn timestamp_round_trip() {
    let t = ts(2024, 5, 1, 8, 15, 0, 7200);
    let text = t.to_text();
    assert_eq!(text, "2024-05-01T08:15:00+0200");
    let back = parse_timestamp(&text).unwrap();
    assert_eq!(back, t);
    assert_eq!(back.to_instant(), t.to_instant());
    let n = ts(33, 1, 9, 0, 0, 7, -34200);
    assert_eq!(n.to_text(), "0033-01-09T00:00:07-0930");
    assert_eq!(parse_timestamp(&n.to_text()).unwrap(), n);
    let z = ts(2024, 5, 1, 8, 15, 0, 0);
    assert_eq!(z.to_text(), "2024-05-01T08:15:00+0000");
    assert_eq!(parse_timestamp("2024-05-01T08:15:00-0000").unwrap(), z);
}

#[test]
fn bad_timestamps_are_refused() {
    assert_eq!(parse_timestamp("").unwrap_err(), SbbError::BadTimestamp);
    assert_eq!(parse_timestamp("garbage").unwrap_err(), SbbError::BadTimestamp);
    assert_eq!(parse_timestamp("2023-02-29T08:15:00+0200").unwrap_err(), SbbError::BadTimestamp);
    assert_eq!(parse_timestamp("2024-05-01T08:15:00").unwrap_err(), SbbError::BadTimestamp);
}

#[test]
fn instants_since_epoch() {
    assert_eq!(days_from_civil_exec(1970, 1, 1), 0);
    assert_eq!(days_from_civil_exec(1969, 12, 31), -1);
    assert_eq!(days_from_civil_exec(2000, 3, 1), 11017);
    assert_eq!(days_from_civil_exec(2024, 2, 29), 19782);
    assert_eq!(days_from_civil_exec(1, 1, 1), -719162);
    assert_eq!(ts(2024, 5, 1, 8, 15, 0, 7200).to_instant(), 1714544100);
}

#[test]
fn signed_duration_between_timestamps() {
    let a = ts(2024, 5, 1, 8, 15, 0, 7200);
    let b = ts(2024, 5, 1, 9, 17, 30, 7200);
    assert_eq!(b.signed_duration_since(&a), Duration { seconds: 3750 });
    assert_eq!(a.signed_duration_since(&b), Duration { seconds: -3750 });
    assert_eq!(b.time(), TimeOfDay { hour: 9, minute: 17, second: 30 });
}

#[test]
fn time_of_day_text() {
    assert_eq!(TimeOfDay { hour: 7, minute: 5, second: 0 }.to_text(), "07:05:00");
    assert_eq!(Duration { seconds: 0 }.minutes_text(), "0min");
    assert_eq!(Duration { seconds: 7260 }.minutes_text(), "121min");
}

#[test]
fn number_of_connections() {
    assert_eq!(result_count(None), Ok(1));
    assert_eq!(result_count(Some("5")), Ok(5));
    assert_eq!(result_count(Some("+7")), Ok(7));
    assert_eq!(result_count(Some("-3")), Ok(-3));
    assert_eq!(result_count(Some("x")), Err(SbbError::InvalidNumber));
    assert_eq!(result_count(Some("")), Err(SbbError::InvalidNumber));
    assert_eq!(result_count(Some("99999999999")), Err(SbbError::InvalidNumber));
}

#[test]
fn origin_and_destination_are_required() {
    assert_eq!(resolve_args(None, Some("Bern"), None), Err(SbbError::MissingArgument));
    assert_eq!(resolve_args(Some("Bern"), None, Some("2")), Err(SbbError::MissingArgument));
    assert_eq!(
        resolve_args(Some("Bern"), Some("Zürich HB"), None),
        Ok(("Bern".to_string(), "Zürich HB".to_string(), 1))
    );
    assert_eq!(resolve_args(Some("Bern"), Some("Thun"), Some("two")), Err(SbbError::InvalidNumber));
}

#[test]
fn query_address() {
    assert_eq!(
        connections_url("http://example.org/v1", "Bern", "Thun", 3),
        "http://example.org/v1/connections?from=Bern&to=Thun&page=0&limit=3"
    );
}
