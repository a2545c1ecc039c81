use kaforge::docs::DocKind;
use kaforge::client::{AclEntry, BrokerInfo, GroupOverview, PartitionInfo, TopicOverview};
use kaforge::rows::{
    fetch_for, load_rows, Fetch, Fetched, MonitorPartition, MonitorTopic,
    acl_error_row, acl_row, broker_row, config_assignment, filter_records, group_row, item_position,
    kept_selection, log_dir_row, log_dirs_error_row, monitor_partitions, monitor_row, monitor_topics,
    no_registry_row, parse_i32_or_zero, partition_request, record_row, records_csv, saturating_sub,
    timestamp_secs, topic_acl, topic_row, MONITOR_PARTITIONS, MONITOR_TOPICS,
};
use kaforge::stream::ConsumedRecord;

fn rec(key: &str, value: &str) -> ConsumedRecord {
    ConsumedRecord {
        topic: "t".into(),
        partition: 1,
        offset: -2,
        timestamp_ms: None,
        key: key.into(),
        value: value.into(),
        headers: String::new(),
        bytes: value.len(),
    }
}

#[test]
fn table_rows() {
    let t = TopicOverview { name: "n".into(), partitions: 3, replication: 2, internal: false, error: "e".into() };
    assert_eq!(topic_row(t), vec!["n", "3", "2", "e"]);
    assert_eq!(broker_row(BrokerInfo { id: 7, host: "h".into(), port: 9092 }), vec!["7", "h", "9092"]);
    let g = GroupOverview { id: "g".into(), state: "Empty".into(), protocol: "p (0)".into() };
    assert_eq!(group_row(g), vec!["g", "Empty", "p (0)"]);
    let a = topic_acl("User:bob".into(), "orders".into());
    assert_eq!(a.host, "*");
    assert_eq!(acl_row(a), vec!["User:bob", "All", "Allow", "Topic:orders"]);
    let a = AclEntry {
        principal: "p".into(),
        host: "h".into(),
        operation: "Read".into(),
        permission: "Deny".into(),
        resource_type: "Group".into(),
        resource_name: "g".into(),
    };
    assert_eq!(acl_row(a)[3], "Group:g");
    assert_eq!(record_row(&rec("k", "v"), "2024".into()), vec!["t", "1", "-2", "2024", "k", "v"]);
}

#[test]
fn monitor_lag() {
    assert_eq!(monitor_row("t".into(), 0, 5, 12), vec!["t", "0", "5..12", "7"]);
    assert_eq!(monitor_row("t".into(), 3, -1, -1)[3], "0");
    assert_eq!(saturating_sub(i64::MIN, 1), i64::MIN);
    assert_eq!(saturating_sub(i64::MAX, -1), i64::MAX);
    assert_eq!(monitor_row("t".into(), 0, i64::MIN, i64::MAX)[3], i64::MAX.to_string());
}

#[test]
fn csv_export() {
    let rows = vec![rec("a,b", "x\ny,z"), rec("", "")];
    assert_eq!(
        records_csv(&rows),
        "topic,partition,offset,key,value\nt,1,-2,a b,x y z\nt,1,-2,,\n"
    );
    assert_eq!(records_csv(&vec![]), "topic,partition,offset,key,value\n");
}

#[test]
fn search_ignores_ascii_case() {
    let rows = vec![rec("Alpha", "one"), rec("beta", "TWO"), rec("gamma", "three")];
    let got = filter_records(&rows, "ALP");
    assert_eq!(got.len(), 1);
    assert_eq!(got[0].key, "Alpha");
    let got = filter_records(&rows, "two");
    assert_eq!(got[0].key, "beta");
    assert_eq!(filter_records(&rows, "").len(), 3);
    assert_eq!(filter_records(&rows, "zzz").len(), 0);
}

#[test]
fn small_forms() {
    assert_eq!(config_assignment("retention.ms=1=2"), Some(("retention.ms".into(), "1=2".into())));
    assert_eq!(config_assignment("novalue"), None);
    assert_eq!(parse_i32_or_zero("-12"), -12);
    assert_eq!(parse_i32_or_zero("2147483648"), 0);
    assert_eq!(parse_i32_or_zero("-2147483648"), i32::MIN);
    assert_eq!(parse_i32_or_zero(" 1"), 0);
    assert_eq!(partition_request("orders", "6"), Ok(("orders".into(), 6)));
    assert_eq!(partition_request("  ", "6"), Err("topic and partition count required".into()));
    assert_eq!(partition_request("orders", "0"), Err("topic and partition count required".into()));
    assert_eq!(partition_request("orders", "x"), Err("topic and partition count required".into()));
}

#[test]
fn list_selection() {
    let items = vec!["a".to_string(), "b".to_string(), "b".to_string()];
    assert_eq!(item_position(&items, "b"), Some(1));
    assert_eq!(item_position(&items, "c"), None);
    assert_eq!(kept_selection(&items, Some("a".into()), None), Some("a".into()));
    assert_eq!(kept_selection(&items, Some("z".into()), Some("a".into())), None);
    assert_eq!(kept_selection(&items, None, Some("a".into())), Some("a".into()));
    assert_eq!(kept_selection(&items, None, Some("z".into())), None);
    assert_eq!(kept_selection(&items, None, None), None);
}

#[test]
fn monitor_watches_the_first_few() {
    let topics: Vec<TopicOverview> = (0..25)
        .map(|i| TopicOverview {
            name: format!("t{i}"),
            partitions: 1,
            replication: 1,
            internal: false,
            error: String::new(),
        })
        .collect();
    let kept = monitor_topics(topics);
    assert_eq!(kept.len(), MONITOR_TOPICS);
    assert_eq!(kept[19].name, "t19");
    let parts: Vec<PartitionInfo> = (0..3)
        .map(|i| PartitionInfo { id: i, leader: 1, replicas: "1".into(), isr: "1".into(), error: String::new() })
        .collect();
    assert_eq!(monitor_partitions(parts).len(), 3);
    assert_eq!(MONITOR_PARTITIONS, 8);
}

#[test]
fn fallback_rows() {
    assert_eq!(log_dir_row("/data".into(), "3 GB".into()), vec!["", "/data", "3 GB"]);
    assert_eq!(log_dirs_error_row("nope".into()), vec!["", "logdirs", "nope"]);
    assert_eq!(acl_error_row("denied".into()), vec!["denied", "", "", ""]);
    assert_eq!(no_registry_row(), vec!["Schema Registry URL is not set"]);
}

#[test]
fn record_seconds_round_toward_zero() {
    assert_eq!(timestamp_secs(Some(1_700_000_000_999)), Some(1_700_000_000));
    assert_eq!(timestamp_secs(Some(-1_500)), Some(-1));
    assert_eq!(timestamp_secs(None), None);
}

#[test]
fn fetch_plan_per_kind() {
    assert_eq!(fetch_for(DocKind::Acl), Fetch::Acls);
    assert_eq!(fetch_for(DocKind::Sr), Fetch::Subjects);
    assert_eq!(fetch_for(DocKind::Consumer), Fetch::Nothing);
    assert_eq!(fetch_for(DocKind::Monitor), Fetch::Monitor);
}

#[test]
fn rows_from_fetched_lists() {
    let topics = vec![TopicOverview { name: "a".into(), partitions: 3, replication: 2, internal: false, error: String::new() }];
    assert_eq!(load_rows(Fetched::Topics(Ok(topics))).unwrap(), vec![vec!["a", "3", "2", ""]]);
    assert_eq!(load_rows(Fetched::Topics(Err("down".into()))).unwrap_err(), "down");
    let brokers = vec![BrokerInfo { id: 1, host: "h".into(), port: 9092 }];
    assert_eq!(
        load_rows(Fetched::Nodes(Ok(brokers), Err("no logdirs".into()))).unwrap(),
        vec![vec!["1", "h", "9092"], vec!["", "logdirs", "no logdirs"]]
    );
    assert_eq!(
        load_rows(Fetched::Nodes(Ok(Vec::new()), Ok(vec![("/d".into(), "1 GB".into())]))).unwrap(),
        vec![vec!["", "/d", "1 GB"]]
    );
    assert_eq!(load_rows(Fetched::Nodes(Err("x".into()), Ok(Vec::new()))).unwrap_err(), "x");
    assert_eq!(load_rows(Fetched::Acls(Err("denied".into()))).unwrap(), vec![vec!["denied", "", "", ""]]);
    assert_eq!(load_rows(Fetched::Subjects(None)).unwrap(), vec![vec!["Schema Registry URL is not set"]]);
    assert_eq!(load_rows(Fetched::Subjects(Some(Ok(vec!["s-value".into()])))).unwrap(), vec![vec!["s-value"]]);
    assert_eq!(load_rows(Fetched::Subjects(Some(Err("sr".into())))).unwrap_err(), "sr");
    assert!(load_rows(Fetched::Nothing).unwrap().is_empty());
}

#[test]
fn monitor_skips_failed_fetches() {
    let ts = vec![
        MonitorTopic { name: "x".into(), partitions: Err("gone".into()) },
        MonitorTopic {
            name: "y".into(),
            partitions: Ok(vec![
                MonitorPartition { id: 0, watermarks: Ok((2, 7)) },
                MonitorPartition { id: 1, watermarks: Err("timeout".into()) },
                MonitorPartition { id: 2, watermarks: Ok((0, 0)) },
            ]),
        },
    ];
    assert_eq!(
        load_rows(Fetched::Monitor(Ok(ts))).unwrap(),
        vec![vec!["y", "0", "2..7", "5"], vec!["y", "2", "0..0", "0"]]
    );
    assert_eq!(load_rows(Fetched::Monitor(Err("t".into()))).unwrap_err(), "t");
}

#[test]
fn monitor_rows_capped_in_the_library() {
    let ts: Vec<MonitorTopic> = (0..25)
        .map(|t| MonitorTopic {
            name: format!("t{t}"),
            partitions: Ok((0..10).map(|p| MonitorPartition { id: p, watermarks: Ok((0, 1)) }).collect()),
        })
        .collect();
    let rows = load_rows(Fetched::Monitor(Ok(ts))).unwrap();
    assert_eq!(rows.len(), 160);
    assert_eq!(rows[159][0], "t19");
    assert_eq!(rows[159][1], "7");
}
