use kaforge::docs::DocKind;
use kaforge::pane::{no_schema_registry, ConfigChange, PaneState, PaneStatus};
use kaforge::stream::{ConsumedRecord, StreamEvent};

fn rec(key: &str, value: &str) -> ConsumedRecord {
    ConsumedRecord {
        topic: "t".into(),
        partition: 0,
        offset: 5,
        timestamp_ms: None,
        key: key.into(),
        value: value.into(),
        headers: String::new(),
        bytes: value.len(),
    }
}

#[test]
fn new_pane_loads_when_connected() {
    let (p, ticket) = PaneState::new(DocKind::Topics, Some("orders".into()), true);
    assert_eq!(ticket, Some(1));
    assert!(matches!(p.status, PaneStatus::Loading));
    assert_eq!(p.payload.as_deref(), Some("orders"));
    let (p, ticket) = PaneState::new(DocKind::Topics, None, false);
    assert_eq!(ticket, None);
    assert!(matches!(p.status, PaneStatus::NotConnected));
    assert_eq!(p.load_gen, 0);
}

#[test]
fn stale_load_is_dropped() {
    let (mut p, first) = PaneState::new(DocKind::Groups, None, true);
    let second = p.refresh();
    assert_eq!(second, Some(2));
    assert!(!p.rows_loaded(first.unwrap(), Ok(9)));
    assert!(matches!(p.status, PaneStatus::Loading));
    assert!(p.rows_loaded(second.unwrap(), Ok(3)));
    assert!(matches!(p.status, PaneStatus::Rows(3)));
    let third = p.refresh().unwrap();
    assert!(p.rows_loaded(third, Err("timed out".into())));
    assert!(matches!(&p.status, PaneStatus::Text(t) if t == "timed out"));
}

#[test]
fn attach_and_fail() {
    let (mut p, _) = PaneState::new(DocKind::Nodes, None, false);
    assert_eq!(p.attach(), Some(1));
    assert!(p.connected);
    assert!(matches!(p.status, PaneStatus::Loading));
    p.fail("broker down".into());
    assert!(matches!(&p.status, PaneStatus::Text(t) if t == "broker down"));
}

#[test]
fn topic_comes_from_picker_or_input() {
    let (p, _) = PaneState::new(DocKind::Consumer, None, true);
    assert_eq!(p.topic_name(Some("a".into()), "b".into()), "a");
    assert_eq!(p.topic_name(None, "b".into()), "");
    let (p, _) = PaneState::new(DocKind::Topics, None, true);
    assert_eq!(p.topic_name(Some("a".into()), "b".into()), "b");
}

#[test]
fn produce_round() {
    let (mut p, _) = PaneState::new(DocKind::Producer, None, false);
    assert!(p.produce_request("t".into(), "k".into(), "v".into()).is_none());
    assert!(matches!(p.status, PaneStatus::NotConnected));
    p.attach();
    let rec = p.produce_request("t".into(), "k".into(), "v".into()).unwrap();
    assert_eq!(rec.count, 1);
    assert_eq!(rec.partition, None);
    assert!(rec.headers.is_empty());
    assert!(matches!(p.status, PaneStatus::Sending));
    p.produced(Ok(()));
    assert!(matches!(p.status, PaneStatus::Produced));
    p.produced(Err("no leader".into()));
    assert!(matches!(&p.status, PaneStatus::Text(t) if t == "no leader"));
}

#[test]
fn poll_round() {
    let (mut p, _) = PaneState::new(DocKind::Consumer, None, true);
    p.toggle_from_beginning();
    let q = p.poll_request("t".into(), "g".into()).unwrap();
    assert_eq!(q.max_messages, 50);
    assert!(q.from_beginning);
    assert!(!q.commit);
    p.polled(Ok(vec![rec("a", "1"), rec("b", "2")]));
    assert_eq!(p.records.len(), 2);
    assert!(matches!(p.status, PaneStatus::Rows(2)));
    p.polled(Err("gone".into()));
    assert_eq!(p.records.len(), 2);
    assert!(matches!(&p.status, PaneStatus::Text(t) if t == "gone"));
}

#[test]
fn stream_round() {
    let (mut p, _) = PaneState::new(DocKind::Consumer, None, true);
    p.toggle_commit();
    let q = p.stream_request("t".into(), String::new()).unwrap();
    assert_eq!(q.max_messages, 10_000);
    assert!(q.commit);
    assert!(!p.stream_event(StreamEvent::Ended));
    p.stream_started(Ok(()));
    assert!(p.streaming);
    assert!(matches!(p.status, PaneStatus::Streaming));
    assert!(p.stream_event(StreamEvent::Message(rec("k", "v"))));
    assert_eq!(p.records.len(), 1);
    assert!(p.stream_event(StreamEvent::Error("cap".into())));
    assert!(matches!(&p.status, PaneStatus::Text(t) if t == "cap"));
    assert!(!p.stream_event(StreamEvent::Ended));
    assert!(!p.streaming);
    assert!(!p.stream_event(StreamEvent::Message(rec("x", "y"))));
    assert_eq!(p.records.len(), 1);
    p.stream_started(Err("no topic".into()));
    assert!(!p.streaming);
    let (mut p, _) = PaneState::new(DocKind::Consumer, None, false);
    assert!(p.stream_request("t".into(), String::new()).is_none());
    p.stop_stream();
    assert!(!p.streaming);
}

#[test]
fn admin_requests() {
    let (mut p, _) = PaneState::new(DocKind::Topics, None, true);
    assert_eq!(p.named_topic("orders"), Some("orders".into()));
    assert_eq!(p.named_topic("  "), None);
    assert_eq!(p.partitions_request("orders", "6"), Some(("orders".into(), 6)));
    assert_eq!(p.partitions_request("orders", "x"), None);
    assert!(matches!(&p.status, PaneStatus::Text(t) if t == "topic and partition count required"));
    match p.config_request("orders", "retention.ms=1000") {
        Some(ConfigChange::Topic(t, k, v)) => {
            assert_eq!((t.as_str(), k.as_str(), v.as_str()), ("orders", "retention.ms", "1000"))
        }
        _ => panic!("topic change expected"),
    }
    assert!(p.config_request("orders", "retention").is_none());
    assert!(matches!(&p.status, PaneStatus::Text(t) if t == "use extra field as key=value"));
    let (mut nodes, _) = PaneState::new(DocKind::Nodes, None, true);
    match nodes.config_request("3", "a=b=c") {
        Some(ConfigChange::Broker(id, k, v)) => assert_eq!((id, k.as_str(), v.as_str()), (3, "a", "b=c")),
        _ => panic!("broker change expected"),
    }
    match nodes.config_request("x", "a=b") {
        Some(ConfigChange::Broker(id, _, _)) => assert_eq!(id, 0),
        _ => panic!("broker change expected"),
    }
    let (off, _) = PaneState::new(DocKind::Topics, None, false);
    assert_eq!(off.named_topic("orders"), None);
    assert_eq!(off.reset_request("g".into(), "t".into()), None);
    assert!(off.acl_request("User:a".into(), "t".into()).is_none());
}

#[test]
fn groups_replay_and_acls() {
    let (mut p, _) = PaneState::new(DocKind::Groups, None, true);
    assert_eq!(p.reset_request("g".into(), "t".into()), Some(("g".into(), "t".into(), false)));
    assert_eq!(p.group_to_delete("g"), Some("g".into()));
    assert_eq!(p.group_to_delete(""), None);
    assert_eq!(p.replay_target("dest"), None);
    p.polled(Ok(vec![rec("a", "1")]));
    assert_eq!(p.replay_target("dest"), Some("dest".into()));
    assert_eq!(p.replay_target(" "), None);
    let acl = p.acl_request("User:alice".into(), "orders".into()).unwrap();
    assert_eq!(acl.host, "*");
    assert_eq!(acl.operation, "All");
    assert_eq!(acl.resource_type, "Topic");
    assert_eq!(no_schema_registry(), "no schema registry");
}

#[test]
fn finishing_a_request_reloads() {
    let (mut p, _) = PaneState::new(DocKind::Topics, None, true);
    let t = p.finished(Ok(()), PaneStatus::Created, true);
    assert_eq!(t, Some(2));
    assert!(matches!(p.status, PaneStatus::Loading));
    let t = p.finished(Err("exists".into()), PaneStatus::Created, false);
    assert_eq!(t, None);
    assert!(matches!(&p.status, PaneStatus::Text(m) if m == "exists"));
    p.finished(Ok(()), PaneStatus::Deleted, false);
    assert!(matches!(p.status, PaneStatus::Deleted));
}

#[test]
fn export_and_search() {
    let (mut p, _) = PaneState::new(DocKind::Consumer, None, true);
    p.polled(Ok(vec![rec("Alpha", "x,y"), rec("beta", "ALPHA")]));
    assert_eq!(p.export_csv(), "topic,partition,offset,key,value\nt,0,5,Alpha,x y\nt,0,5,beta,ALPHA\n");
    assert!(matches!(p.status, PaneStatus::Copied));
    let found = p.search("alp");
    assert_eq!(found.len(), 2);
    assert!(matches!(p.status, PaneStatus::Rows(2)));
    let found = p.search("bet");
    assert_eq!(found.len(), 1);
    assert_eq!(p.records.len(), 2);
    p.copied();
    assert!(matches!(p.status, PaneStatus::Copied));
}
