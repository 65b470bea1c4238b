use apca::clock::{ApiError, Clock, Get};
use apca::endpoint::{DecodeError, Descriptor, Method, Outcome, OutcomeKind, Payload};
use apca::json::{JsonObject, JsonValue};
use apca::time::Timestamp;
use apca::util::WireError;

const REFERENCE: &str = r#"{
  "timestamp": "2018-04-01T12:00:00.000Z",
  "is_open": true,
  "next_open": "2018-04-01T12:00:00.000Z",
  "next_close": "2018-04-01T12:00:00.000Z"
}"#;

fn ts(secs: i64) -> Timestamp {
    Timestamp { secs, nanos: 0 }
}

#[test]
fn parse_reference_clock() {
    let clock = Clock::decode(REFERENCE.as_bytes()).unwrap();
    assert_eq!(clock.open, true);
}

#[test]
fn reference_clock_has_all_fields() {
    let clock = Clock::decode(REFERENCE.as_bytes()).unwrap();
    let t = ts(1_522_584_000);
    assert_eq!(clock, Clock { open: true, current: t, next_open: t, next_close: t });
}

#[test]
fn get_clock_request() {
    let d = Get::descriptor();
    assert_eq!(d.method, Method::Get);
    assert_eq!(d.statuses, vec![(200, OutcomeKind::Success)]);
    assert_eq!(Get::path(&()), "/v2/clock");
}

#[test]
fn interpret_success_decodes_clock() {
    let r: Outcome<Clock, ApiError> = Get::descriptor().interpret(200, REFERENCE.as_bytes().to_vec());
    let t = ts(1_522_584_000);
    assert_eq!(r, Outcome::Success(Clock { open: true, current: t, next_open: t, next_close: t }));
}

#[test]
fn interpret_unlisted_status_is_unexpected() {
    let body = b"{\"message\": \"not found\"}".to_vec();
    let r: Outcome<Clock, ApiError> = Get::descriptor().interpret(404, body.clone());
    assert_eq!(r, Outcome::UnexpectedStatus(404, body));
    let r: Outcome<Clock, ApiError> = Get::descriptor().interpret(500, Vec::new());
    assert_eq!(r, Outcome::UnexpectedStatus(500, Vec::new()));
}

#[test]
fn interpret_missing_field_is_decode_error() {
    let body = br#"{"timestamp": "2018-04-01T12:00:00.000Z", "is_open": true,
        "next_open": "2018-04-01T12:00:00.000Z"}"#
        .to_vec();
    let r: Outcome<Clock, ApiError> = Get::descriptor().interpret(200, body);
    assert_eq!(r, Outcome::Decode(DecodeError::MissingField("next_close".to_string())));
}

#[test]
fn interpret_wrongly_typed_field_is_decode_error() {
    let body = br#"{"timestamp": "2018-04-01T12:00:00.000Z", "is_open": "yes",
        "next_open": "2018-04-01T12:00:00.000Z", "next_close": "2018-04-01T12:00:00.000Z"}"#
        .to_vec();
    let r: Outcome<Clock, ApiError> = Get::descriptor().interpret(200, body);
    assert_eq!(r, Outcome::Decode(DecodeError::MissingField("is_open".to_string())));
}

#[test]
fn interpret_bad_timestamp_is_decode_error() {
    let body = br#"{"timestamp": "noon", "is_open": false,
        "next_open": "2018-04-01T12:00:00.000Z", "next_close": "2018-04-01T12:00:00.000Z"}"#
        .to_vec();
    let r: Outcome<Clock, ApiError> = Get::descriptor().interpret(200, body);
    assert_eq!(
        r,
        Outcome::Decode(DecodeError::Primitive(WireError::MalformedTimestamp("noon".to_string())))
    );
}

#[test]
fn interpret_non_object_is_decode_error() {
    for body in [&b"[1, 2]"[..], b"not json", b""] {
        let r: Outcome<Clock, ApiError> = Get::descriptor().interpret(200, body.to_vec());
        assert_eq!(r, Outcome::Decode(DecodeError::NotAnObject));
    }
}

fn with_failure() -> Descriptor {
    Descriptor {
        method: Method::Post,
        statuses: vec![(200, OutcomeKind::Success), (403, OutcomeKind::Failure), (200, OutcomeKind::Failure)],
    }
}

#[test]
fn interpret_failure_status_decodes_error() {
    let body = br#"{"code": 40310000, "message": "forbidden"}"#.to_vec();
    let r: Outcome<Clock, ApiError> = with_failure().interpret(403, body);
    assert_eq!(r, Outcome::Failure(ApiError { message: "forbidden".to_string() }));
}

#[test]
fn interpret_failure_without_message_is_decode_error() {
    let r: Outcome<Clock, ApiError> = with_failure().interpret(403, b"{}".to_vec());
    assert_eq!(r, Outcome::Decode(DecodeError::MissingField("message".to_string())));
}

#[test]
fn outcome_of_takes_the_first_entry() {
    let d = with_failure();
    assert_eq!(d.outcome_of(200), Some(OutcomeKind::Success));
    assert_eq!(d.outcome_of(403), Some(OutcomeKind::Failure));
    assert_eq!(d.outcome_of(404), None);
}

#[test]
fn open_clock_closes_before_it_opens() {
    let clock = Clock { open: true, current: ts(100), next_open: ts(300), next_close: ts(200) };
    assert!(clock.is_consistent());
    let wrong = Clock { open: true, current: ts(100), next_open: ts(200), next_close: ts(300) };
    assert!(!wrong.is_consistent());
}

#[test]
fn closed_clock_opens_before_it_closes() {
    let clock = Clock { open: false, current: ts(100), next_open: ts(200), next_close: ts(300) };
    assert!(clock.is_consistent());
    let wrong = Clock { open: false, current: ts(100), next_open: ts(300), next_close: ts(200) };
    assert!(!wrong.is_consistent());
    let stale = Clock { open: false, current: ts(250), next_open: ts(200), next_close: ts(300) };
    assert!(!stale.is_consistent());
}

#[test]
fn json_object_reads_members() {
    let obj = JsonObject::parse(br#"{"a": true, "b": "text", "c": 3}"#).unwrap();
    assert_eq!(obj.get_bool("a"), Some(true));
    assert_eq!(obj.get_text("b"), Some(&"text".to_string()));
    assert_eq!(obj.get("c"), Some(&JsonValue::Other));
    assert_eq!(obj.get_bool("b"), None);
    assert_eq!(obj.get_text("a"), None);
    assert_eq!(obj.get("d"), None);
    assert!(JsonObject::parse(b"[true]").is_none());
}
