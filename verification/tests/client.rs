use kaforge::client::{
    Gathered, ProduceRun,
    acls_unsupported, build_client_config, consume_once_config, group_overview, join_ids, named_error,
    partition_info, quota_broker, reset_offset, reset_offsets_config, reset_targets, stream_config, topic_not_found,
    topic_overview, BrokerInfo, ConsumeRequest, ProduceRecord,
};
use kaforge::config::{ConnectionConfig, SaslMechanism};

fn base() -> ConnectionConfig {
    let mut c = ConnectionConfig::default();
    c.bootstrap_servers = "b1:9092,b2:9092".into();
    c
}

fn req(group: &str, from_beginning: bool, commit: bool, max: usize) -> ConsumeRequest {
    ConsumeRequest { topic: "t".into(), group: group.into(), from_beginning, max_messages: max, commit }
}

#[test]
fn plain_client_settings() {
    let c = build_client_config(&base()).unwrap();
    assert_eq!(c.get("bootstrap.servers"), Some("b1:9092,b2:9092"));
    assert_eq!(c.get("client.id"), Some("kaforge"));
    assert_eq!(c.get("socket.timeout.ms"), Some("15000"));
    assert_eq!(c.get("api.version.request"), Some("true"));
    assert_eq!(c.get("security.protocol"), None);
    assert_eq!(c.get("sasl.mechanism"), None);
}

#[test]
fn tls_settings_trim_paths() {
    let mut cfg = base();
    cfg.tls = true;
    cfg.skip_tls_verify = true;
    cfg.tls_ca_file = " /ca.pem ".into();
    cfg.tls_cert_file = "   ".into();
    cfg.tls_key_file = "/key.pem".into();
    let c = build_client_config(&cfg).unwrap();
    assert_eq!(c.get("security.protocol"), Some("ssl"));
    assert_eq!(c.get("enable.ssl.certificate.verification"), Some("false"));
    assert_eq!(c.get("ssl.ca.location"), Some("/ca.pem"));
    assert_eq!(c.get("ssl.certificate.location"), None);
    assert_eq!(c.get("ssl.key.location"), Some("/key.pem"));
}

#[test]
fn sasl_scram_settings() {
    let mut cfg = base();
    cfg.sasl = true;
    cfg.sasl_mechanism = SaslMechanism::ScramSha256;
    cfg.sasl_user = "alice".into();
    cfg.sasl_password = "pw".into();
    let c = build_client_config(&cfg).unwrap();
    assert_eq!(c.get("security.protocol"), Some("sasl_plaintext"));
    assert_eq!(c.get("sasl.mechanism"), Some("SCRAM-SHA-256"));
    assert_eq!(c.get("sasl.username"), Some("alice"));
    assert_eq!(c.get("sasl.password"), Some("pw"));
    cfg.tls = true;
    let c = build_client_config(&cfg).unwrap();
    assert_eq!(c.get("security.protocol"), Some("sasl_ssl"));
}

#[test]
fn sasl_gssapi_oauth_and_msk_settings() {
    let mut cfg = base();
    cfg.sasl = true;
    cfg.sasl_mechanism = SaslMechanism::Gssapi;
    cfg.kerberos_principal = "kafka/host@REALM".into();
    cfg.kerberos_service = "kafka".into();
    let c = build_client_config(&cfg).unwrap();
    assert_eq!(c.get("sasl.mechanism"), Some("GSSAPI"));
    assert_eq!(c.get("sasl.kerberos.principal"), Some("kafka/host@REALM"));
    assert_eq!(c.get("sasl.kerberos.keytab"), None);
    assert_eq!(c.get("sasl.kerberos.service.name"), Some("kafka"));
    assert_eq!(c.get("sasl.username"), None);

    cfg.sasl_mechanism = SaslMechanism::Oauthbearer;
    cfg.sasl_password = "pw-token".into();
    let c = build_client_config(&cfg).unwrap();
    assert_eq!(c.get("sasl.oauthbearer.token"), Some("pw-token"));
    cfg.sasl_oauth_token = "oauth".into();
    let c = build_client_config(&cfg).unwrap();
    assert_eq!(c.get("sasl.oauthbearer.token"), Some("oauth"));

    cfg.sasl_mechanism = SaslMechanism::AwsMskIam;
    let c = build_client_config(&cfg).unwrap();
    assert_eq!(c.get("sasl.mechanism"), Some("OAUTHBEARER"));
    assert_eq!(c.get("sasl.oauthbearer.token"), Some("pw-token"));
}

#[test]
fn consumer_configs() {
    let c = consume_once_config(&base(), &req("", true, false, 5)).unwrap();
    assert_eq!(c.get("auto.offset.reset"), Some("earliest"));
    assert_eq!(c.get("group.id"), None);
    let c = consume_once_config(&base(), &req("kaforge-it-7", true, false, 1)).unwrap();
    assert_eq!(c.get("group.id"), Some("kaforge-it-7"));
    let c = stream_config(&base(), &req("g1", false, true, 5)).unwrap();
    assert_eq!(c.get("group.id"), Some("g1"));
    assert_eq!(c.get("auto.offset.reset"), Some("latest"));
    assert_eq!(c.get("enable.auto.commit"), Some("true"));
    let c = stream_config(&base(), &req("", false, false, 5)).unwrap();
    let g = c.get("group.id").unwrap();
    assert!(g.starts_with("kaforge-"));
    assert_eq!(g.len(), 44);
    assert_eq!(c.get("enable.auto.commit"), Some("false"));
    let c = reset_offsets_config(&base(), "grp").unwrap();
    assert_eq!(c.get("group.id"), Some("grp"));
}

#[test]
fn request_limits() {
    assert_eq!(req("", false, false, 0).poll_cap(), 1);
    assert_eq!(req("", false, false, 50).poll_cap(), 50);
    assert_eq!(req("", false, false, 10_000).poll_cap(), 500);
    let mut p = ProduceRecord {
        topic: "t".into(),
        key: String::new(),
        value: String::new(),
        partition: None,
        headers: Vec::new(),
        count: 0,
        compression: String::new(),
    };
    assert_eq!(p.repetitions(), 1);
    p.count = 4;
    assert_eq!(p.repetitions(), 4);
}

#[test]
fn metadata_overviews() {
    let t = topic_overview("_internal".into(), &vec![3, 2], None);
    assert_eq!(t.partitions, 2);
    assert_eq!(t.replication, 3);
    assert!(t.internal);
    assert_eq!(t.error, "");
    let t = topic_overview("orders".into(), &vec![], Some("UnknownTopic".into()));
    assert_eq!(t.replication, 0);
    assert!(!t.internal);
    assert_eq!(t.error, "UnknownTopic");
    let p = partition_info(0, 1, &vec![1, 2, 3], &vec![-1], None);
    assert_eq!(p.replicas, "1,2,3");
    assert_eq!(p.isr, "-1");
    assert_eq!(join_ids(&vec![]), "");
    let g = group_overview("g".into(), "Stable".into(), "range", 12);
    assert_eq!(g.protocol, "range (12)");
    assert_eq!(
        acls_unsupported().message(),
        "ACL describe/create uses the Kafka Admin API; denied or unavailable on this cluster"
    );
}

#[test]
fn reset_goes_to_a_watermark() {
    assert_eq!(reset_offset(3, 10, true), 3);
    assert_eq!(reset_offset(3, 10, false), 10);
}

#[test]
fn quotas_go_to_the_first_broker() {
    let brokers = vec![
        BrokerInfo { id: 7, host: "a".into(), port: 9092 },
        BrokerInfo { id: 2, host: "b".into(), port: 9092 },
    ];
    assert_eq!(quota_broker(&brokers).unwrap(), 7);
    assert_eq!(quota_broker(&Vec::new()).unwrap_err().message(), "no brokers");
}

#[test]
fn admin_error_texts() {
    assert_eq!(topic_not_found("orders").message(), "topic orders not found");
    assert_eq!(named_error("orders", "already exists").message(), "orders: already exists");
}

#[test]
fn reset_plan_stops_at_first_failure() {
    let parts = vec![(0, Ok((3, 9))), (1, Ok((0, 4)))];
    assert_eq!(reset_targets(parts, true).unwrap(), vec![(0, 3), (1, 0)]);
    let parts = vec![(0, Ok((3, 9))), (1, Ok((0, 4)))];
    assert_eq!(reset_targets(parts, false).unwrap(), vec![(0, 9), (1, 4)]);
    let parts = vec![(0, Ok((3, 9))), (1, Err("timeout".to_string())), (2, Err("later".to_string()))];
    assert_eq!(reset_targets(parts, true).unwrap_err(), "timeout");
    assert!(reset_targets(Vec::new(), true).unwrap().is_empty());
}

#[test]
fn poll_gathers_up_to_its_cap() {
    let mut g = Gathered::new(&req("", false, false, 2));
    assert!(g.wants_more());
    assert!(g.add(consumed("a")));
    assert!(g.add(consumed("b")));
    assert!(!g.wants_more());
    assert!(!g.add(consumed("c")));
    let got = g.records();
    assert_eq!(got.len(), 2);
    assert_eq!(got[1].key, "b");
    let mut g = Gathered::new(&req("", false, false, 0));
    assert!(g.add(consumed("a")));
    assert!(!g.wants_more());
    let mut g = Gathered::new(&req("", false, false, 10_000));
    for _ in 0..500 {
        assert!(g.add(consumed("x")));
    }
    assert!(!g.add(consumed("y")));
}

#[test]
fn produce_hands_out_each_repetition() {
    let rec = ProduceRecord {
        topic: "t".into(),
        key: "k".into(),
        value: "v".into(),
        partition: Some(2),
        headers: vec![("h".into(), "1".into()), ("i".into(), "2".into())],
        count: 3,
        compression: "zstd".into(),
    };
    let mut run = ProduceRun::new(rec);
    let mut n = 0;
    while let Some(o) = run.next() {
        assert_eq!((o.topic.as_str(), o.key.as_str(), o.value.as_str()), ("t", "k", "v"));
        assert_eq!(o.partition, Some(2));
        assert_eq!(o.headers, vec![("h".to_string(), "1".to_string()), ("i".to_string(), "2".to_string())]);
        n += 1;
    }
    assert_eq!(n, 3);
    assert!(run.next().is_none());
    let once = ProduceRecord { topic: "t".into(), key: String::new(), value: String::new(), partition: None, headers: Vec::new(), count: 0, compression: String::new() };
    let mut run = ProduceRun::new(once);
    assert!(run.next().is_some());
    assert!(run.next().is_none());
}

fn consumed(key: &str) -> kaforge::stream::ConsumedRecord {
    kaforge::stream::ConsumedRecord {
        topic: "t".into(),
        partition: 0,
        offset: 0,
        timestamp_ms: None,
        key: key.into(),
        value: String::new(),
        headers: String::new(),
        bytes: 0,
    }
}
