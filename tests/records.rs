use dedup_log::formatter::{ConsoleFormatter, Formatter, JsonFormatter};
use dedup_log::loglevel::LogLevel;
use dedup_log::message::{DuplicatedMessages, Message};
use dedup_log::time::Timestamp;

fn at(secs: i64, nanos: u32, offset: i32) -> Timestamp {
    Timestamp::new(secs, nanos, offset).unwrap()
}

#[test]
fn level_names() {
    assert_eq!(LogLevel::Debug.name(), "DEBUG");
    assert_eq!(LogLevel::Info.name(), "INFO");
    assert_eq!(LogLevel::Warn.name(), "WARN");
    assert_eq!(LogLevel::Error.name(), "ERROR");
    assert_eq!(LogLevel::Shutdown.name(), "SHUTDOWN");
}

#[test]
fn timestamp_rejects_bad_parts() {
    assert!(Timestamp::new(0, 0, 86_400).is_none());
    assert!(Timestamp::new(0, 0, -86_400).is_none());
    assert!(Timestamp::new(i64::MAX, 0, 0).is_none());
    assert!(Timestamp::new(0, 1_500_000_000, 0).is_none());
    assert!(Timestamp::new(59, 1_500_000_000, 0).is_some());
    assert!(Timestamp::new(1_700_000_000, 5, 3600).is_some());
}

#[test]
fn timestamp_order_ignores_offset() {
    assert!(at(10, 0, 3600).is_before(&at(10, 1, 0)));
    assert!(at(9, 999_999_999, 0).is_before(&at(10, 0, -3600)));
    assert!(!at(10, 0, 0).is_before(&at(10, 0, 7200)));
}

#[test]
fn clock_text_of_timestamps() {
    assert_eq!(at(0, 0, 0).clock(), "00:00:00");
    assert_eq!(at(3661, 0, 3600).clock(), "02:01:01");
    assert_eq!(at(-1, 0, 0).clock(), "23:59:59");
    assert_eq!(at(59, 1_500_000_000, 0).clock(), "00:00:60");
}

#[test]
fn rfc3339_text_of_timestamps() {
    assert_eq!(at(0, 0, 0).to_rfc3339(), "1970-01-01T00:00:00+00:00");
    assert_eq!(at(0, 0, 3600).to_rfc3339(), "1970-01-01T01:00:00+01:00");
    assert_eq!(at(0, 500_000_000, 0).to_rfc3339(), "1970-01-01T00:00:00.500+00:00");
}

#[test]
fn message_new_keeps_level_and_text() {
    let m = Message::new(LogLevel::Warn, "disk low");
    assert!(m.level == LogLevel::Warn);
    assert_eq!(m.message, "disk low");
}

#[test]
fn identity_ignores_timestamp() {
    let a = Message::with_timestamp(at(1, 0, 0), LogLevel::Info, "World");
    let b = Message::with_timestamp(at(500, 7, 3600), LogLevel::Info, "World");
    assert_eq!(a.message_id(), b.message_id());
    let c = Message::with_timestamp(at(1, 0, 0), LogLevel::Warn, "World");
    let d = Message::with_timestamp(at(1, 0, 0), LogLevel::Info, "World!");
    assert_ne!(a.message_id(), c.message_id());
    assert_ne!(a.message_id(), d.message_id());
    assert_eq!(a.message_id(), a.clone().message_id());
}

#[test]
fn aggregate_starts_at_one() {
    let m = Message::with_timestamp(at(100, 0, 0), LogLevel::Info, "x");
    let d = DuplicatedMessages::new(&m);
    assert_eq!(d.count(), 1);
    assert_eq!(d.time_range(), (at(100, 0, 0), at(100, 0, 0)));
    assert_eq!(d.message().message, "x");
}

#[test]
fn aggregate_spans_min_to_max_in_any_order() {
    let mut d = DuplicatedMessages::new(&Message::with_timestamp(at(100, 0, 0), LogLevel::Info, "x"));
    d.add(&Message::with_timestamp(at(50, 0, 0), LogLevel::Info, "x"));
    d.add(&Message::with_timestamp(at(200, 0, 0), LogLevel::Info, "x"));
    d.add(&Message::with_timestamp(at(150, 0, 0), LogLevel::Info, "x"));
    assert_eq!(d.count(), 4);
    assert_eq!(d.time_range(), (at(50, 0, 0), at(200, 0, 0)));
    assert_eq!(d.message().timestamp, at(150, 0, 0));
}

#[test]
fn json_line_of_message() {
    let m = Message::with_timestamp(at(0, 0, 0), LogLevel::Info, "say \"hi\"");
    let id = m.message_id();
    let line = JsonFormatter {}.to_line(&m);
    let expected = format!(
        "{{\"level\":\"INFO\",\"msg\":\"say \\\"hi\\\"\",\"msg_id\":{},\"ts\":\"1970-01-01T00:00:00+00:00\"}}",
        id
    );
    assert_eq!(line, expected);
}

#[test]
fn json_line_of_aggregate() {
    let mut d = DuplicatedMessages::new(&Message::with_timestamp(at(0, 0, 0), LogLevel::Error, "boom"));
    d.add(&Message::with_timestamp(at(60, 0, 0), LogLevel::Error, "boom"));
    let id = d.message().message_id();
    let line = JsonFormatter {}.to_dup_line(&d);
    let expected = format!(
        "{{\"level\":\"ERROR\",\"msg\":\"boom\",\"msg_dup\":2,\"msg_id\":{},\"te\":\"1970-01-01T00:01:00+00:00\",\"ts\":\"1970-01-01T00:00:00+00:00\"}}",
        id
    );
    assert_eq!(line, expected);
}

#[test]
fn console_lines() {
    let m = Message::with_timestamp(at(3725, 0, 0), LogLevel::Debug, "Hello");
    assert_eq!(ConsoleFormatter {}.to_line(&m), "01:02:05 [DEBUG] Hello");
    let mut d = DuplicatedMessages::new(&m);
    d.add(&Message::with_timestamp(at(3800, 0, 0), LogLevel::Debug, "Hello"));
    assert_eq!(ConsoleFormatter {}.to_dup_line(&d), "01:02:05 [DEBUG] Hello (Duplicated");
}
