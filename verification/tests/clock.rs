use kaforge::clock::format_unix_secs;

#[test]
fn utc_times_as_shown() {
    assert_eq!(format_unix_secs(0).as_deref(), Some("1970-01-01 00:00:00"));
    assert_eq!(format_unix_secs(1_431_648_000).as_deref(), Some("2015-05-15 00:00:00"));
    assert_eq!(format_unix_secs(-1).as_deref(), Some("1969-12-31 23:59:59"));
    assert_eq!(format_unix_secs(i64::MAX), None);
    assert_eq!(format_unix_secs(i64::MIN), None);
}

#[test]
fn record_time_column() {
    let mut rec = kaforge::stream::ConsumedRecord {
        topic: "t".into(),
        partition: 0,
        offset: 0,
        timestamp_ms: Some(1_431_648_000_999),
        key: String::new(),
        value: String::new(),
        headers: String::new(),
        bytes: 0,
    };
    assert_eq!(kaforge::rows::record_time(&rec), "2015-05-15 00:00:00");
    rec.timestamp_ms = None;
    assert_eq!(kaforge::rows::record_time(&rec), "");
}
