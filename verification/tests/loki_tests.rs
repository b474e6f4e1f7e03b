use esphome2loki::batch::LogEntry;
use esphome2loki::loki::{
    LokiAPI, LokiPush, LokiStream, LokiStreams, PushOutcome, NANOS_PER_SECOND,
};

fn line(timestamp: i64, text: &str) -> LogEntry {
    LogEntry { timestamp, line: text.to_string() }
}

fn get_loki() -> LokiAPI {
    LokiAPI::new("http://127.0.0.1:3100".to_string())
}

#[test]
fn urls_are_the_base_url_and_the_path() {
    let loki = get_loki();
    assert_eq!(loki.get_url("/ready"), "http://127.0.0.1:3100/ready");
    assert_eq!(loki.get_url(""), "http://127.0.0.1:3100");
    assert_eq!(loki.ready_url(), "http://127.0.0.1:3100/ready");
    assert_eq!(loki.push_url(), "http://127.0.0.1:3100/loki/api/v1/push");
    assert_eq!(LokiAPI::new(String::new()).push_url(), "/loki/api/v1/push");
}

#[test]
fn push_body_for_the_unit_test_line() {
    let body = LokiAPI::push_body(
        "esphome2loki".to_string(),
        &vec![line(1_700_000_000_000_000_000, "UNIT TEST")],
    );
    assert_eq!(
        body,
        LokiPush {
            streams: vec![LokiStreams {
                stream: LokiStream { label: "esphome2loki".to_string() },
                values: vec![["1700000000000000000".to_string(), "UNIT TEST".to_string()]],
            }],
        }
    );
}

#[test]
fn push_body_keeps_the_order_of_the_lines() {
    let body = LokiAPI::push_body(
        "kitchen".to_string(),
        &vec![line(2_000_000_000, "second"), line(0, "zero"), line(1_000_000_000, "first")],
    );
    assert_eq!(body.streams.len(), 1);
    assert_eq!(body.streams[0].stream.label, "kitchen");
    assert_eq!(
        body.streams[0].values,
        vec![
            ["2000000000".to_string(), "second".to_string()],
            ["0".to_string(), "zero".to_string()],
            ["1000000000".to_string(), "first".to_string()],
        ]
    );
}

#[test]
fn push_body_writes_timestamps_in_decimal() {
    let body = LokiAPI::push_body(
        "t".to_string(),
        &vec![
            line(-1, "a"),
            line(10, "b"),
            line(i64::MAX, "c"),
            line(i64::MIN, "d"),
            line(9, "e"),
            line(-120, "f"),
        ],
    );
    let stamps: Vec<String> = body.streams[0].values.iter().map(|v| v[0].clone()).collect();
    assert_eq!(
        stamps,
        vec!["-1", "10", "9223372036854775807", "-9223372036854775808", "9", "-120"]
    );
}

#[test]
fn push_body_of_no_line_has_one_empty_stream() {
    let body = LokiAPI::push_body("kitchen".to_string(), &Vec::new());
    assert_eq!(body.streams.len(), 1);
    assert!(body.streams[0].values.is_empty());
}

#[test]
fn status_of_success_is_200_to_299() {
    assert!(!LokiAPI::status_is_success(0));
    assert!(!LokiAPI::status_is_success(100));
    assert!(!LokiAPI::status_is_success(199));
    assert!(LokiAPI::status_is_success(200));
    assert!(LokiAPI::status_is_success(204));
    assert!(LokiAPI::status_is_success(299));
    assert!(!LokiAPI::status_is_success(300));
    assert!(!LokiAPI::status_is_success(404));
    assert!(!LokiAPI::status_is_success(500));
    assert!(!LokiAPI::status_is_success(u16::MAX));
}

#[test]
fn push_outcome_knows_one_kind_of_failure() {
    assert_eq!(LokiAPI::push_outcome(Some(200)), PushOutcome::Delivered);
    assert_eq!(LokiAPI::push_outcome(Some(204)), PushOutcome::Delivered);
    assert_eq!(LokiAPI::push_outcome(Some(301)), PushOutcome::TransientFailure);
    assert_eq!(LokiAPI::push_outcome(Some(400)), PushOutcome::TransientFailure);
    assert_eq!(LokiAPI::push_outcome(Some(429)), PushOutcome::TransientFailure);
    assert_eq!(LokiAPI::push_outcome(Some(503)), PushOutcome::TransientFailure);
    assert_eq!(LokiAPI::push_outcome(None), PushOutcome::TransientFailure);
}

#[test]
fn timestamp_is_the_reading_in_nanoseconds() {
    assert_eq!(NANOS_PER_SECOND, 1_000_000_000);
    assert_eq!(LokiAPI::get_timestamp(0), Some(0));
    assert_eq!(LokiAPI::get_timestamp(1), Some(1_000_000_000));
    assert_eq!(LokiAPI::get_timestamp(1_431_648_000), Some(1_431_648_000_000_000_000));
    // a clock that stands before the epoch
    assert_eq!(LokiAPI::get_timestamp(-3), Some(-3_000_000_000));
}

#[test]
fn timestamp_at_the_edge_of_the_range() {
    assert_eq!(LokiAPI::get_timestamp(9_223_372_036), Some(9_223_372_036_000_000_000));
    assert_eq!(LokiAPI::get_timestamp(9_223_372_037), None);
    assert_eq!(LokiAPI::get_timestamp(-9_223_372_036), Some(-9_223_372_036_000_000_000));
    assert_eq!(LokiAPI::get_timestamp(-9_223_372_037), None);
    assert_eq!(LokiAPI::get_timestamp(i64::MAX), None);
    assert_eq!(LokiAPI::get_timestamp(i64::MIN), None);
}

#[test]
fn wire_types_clone_equal() {
    let body = LokiAPI::push_body("attic".to_string(), &vec![line(1, "a"), line(2, "b")]);
    assert_eq!(body.clone(), body);
    assert_eq!(body.streams[0].clone(), body.streams[0]);
    assert_eq!(body.streams[0].stream.clone(), LokiStream { label: "attic".to_string() });
    assert_eq!(get_loki().clone().push_url(), get_loki().push_url());
}
