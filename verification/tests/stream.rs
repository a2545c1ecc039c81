use kaforge::error::Error;
use kaforge::stream::{
    payload_text, record_from_message, Polled, StreamEvent, StreamRun, MessageTimestamp, RawHeader, RawMessage, StreamStep, StreamTally, STREAM_MAX_BYTES,
    STREAM_MAX_MESSAGES,
};

fn msg() -> RawMessage {
    RawMessage {
        topic: "orders".into(),
        partition: 2,
        offset: 41,
        timestamp: MessageTimestamp::CreateTime(1_700_000_000_000),
        key: Some(b"k1".to_vec()),
        payload: Some(b"payload".to_vec()),
        headers: Some(vec![
            RawHeader { key: "a".into(), value: Some(b"1".to_vec()) },
            RawHeader { key: "b".into(), value: None },
        ]),
    }
}

#[test]
fn record_fields_from_message() {
    let r = record_from_message(&msg(), |b: &[u8]| format!("<{}>", b.len()));
    assert_eq!(r.topic, "orders");
    assert_eq!(r.partition, 2);
    assert_eq!(r.offset, 41);
    assert_eq!(r.timestamp_ms, Some(1_700_000_000_000));
    assert_eq!(r.key, "k1");
    assert_eq!(r.value, "<7>");
    assert_eq!(r.headers, "a=1,b=");
    assert_eq!(r.bytes, 7);
}

#[test]
fn record_without_key_payload_headers() {
    let mut m = msg();
    m.key = None;
    m.payload = None;
    m.headers = None;
    m.timestamp = MessageTimestamp::NotAvailable;
    let r = record_from_message(&m, |b: &[u8]| String::from_utf8_lossy(b).into_owned());
    assert_eq!(r.key, "");
    assert_eq!(r.value, "");
    assert_eq!(r.headers, "");
    assert_eq!(r.timestamp_ms, None);
    assert_eq!(r.bytes, 0);
    m.timestamp = MessageTimestamp::LogAppendTime(5);
    let r = record_from_message(&m, |_b: &[u8]| String::new());
    assert_eq!(r.timestamp_ms, Some(5));
}

#[test]
fn stream_caps() {
    let mut t = StreamTally::new();
    for _ in 0..STREAM_MAX_MESSAGES {
        assert!(matches!(t.count_record(1), StreamStep::Deliver));
    }
    match t.count_record(1) {
        StreamStep::CapReached(m) => assert_eq!(m, "stream cap reached (10000 messages or 200MB)"),
        StreamStep::Deliver => panic!("cap not reached"),
    }
    let mut t = StreamTally::new();
    assert!(matches!(t.count_record(STREAM_MAX_BYTES), StreamStep::Deliver));
    assert!(matches!(t.count_record(1), StreamStep::CapReached(_)));
    assert!(matches!(t.count_record(0), StreamStep::Deliver));
}

#[test]
fn payload_shown_by_registry_or_as_text() {
    let bytes = b"plain".to_vec();
    assert_eq!(payload_text(Some(Ok("{\"a\":1}".into())), &bytes), "{\"a\":1}");
    assert_eq!(payload_text(Some(Err(Error::msg("down".into()))), &bytes), "plain");
    assert_eq!(payload_text(None, &bytes), "plain");
    assert_eq!(payload_text(None, &[0xff, b'a']), "\u{fffd}a");
}

fn consumed(bytes: usize) -> kaforge::stream::ConsumedRecord {
    kaforge::stream::ConsumedRecord {
        topic: "t".into(),
        partition: 0,
        offset: 0,
        timestamp_ms: None,
        key: String::new(),
        value: String::new(),
        headers: String::new(),
        bytes,
    }
}

#[test]
fn stream_run_stops_at_the_byte_cap() {
    let mut run = StreamRun::new();
    assert!(run.step(Polled::Nothing).is_empty());
    let out = run.step(Polled::Record(consumed(STREAM_MAX_BYTES)));
    assert!(matches!(out.as_slice(), [StreamEvent::Message(r)] if r.bytes == STREAM_MAX_BYTES));
    let out = run.step(Polled::Record(consumed(1)));
    assert_eq!(out.len(), 2);
    assert!(matches!(&out[0], StreamEvent::Error(t) if t == "stream cap reached (10000 messages or 200MB)"));
    assert!(matches!(out[1], StreamEvent::Ended));
    assert!(run.step(Polled::Record(consumed(0))).is_empty());
    assert!(run.finish().is_empty());
}

#[test]
fn stream_run_counts_records() {
    let mut run = StreamRun::new();
    for _ in 0..STREAM_MAX_MESSAGES {
        assert_eq!(run.step(Polled::Record(consumed(0))).len(), 1);
    }
    let out = run.step(Polled::Record(consumed(0)));
    assert!(matches!(&out[0], StreamEvent::Error(_)));
    assert!(matches!(out[1], StreamEvent::Ended));
}

#[test]
fn stream_run_failure_and_stop() {
    let mut run = StreamRun::new();
    let out = run.step(Polled::Failed("broker gone".into()));
    assert!(matches!(&out[0], StreamEvent::Error(t) if t == "broker gone"));
    assert!(matches!(out[1], StreamEvent::Ended));
    let mut run = StreamRun::new();
    let out = run.finish();
    assert!(matches!(out.as_slice(), [StreamEvent::Ended]));
    assert!(run.finish().is_empty());
}
