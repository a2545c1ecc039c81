use kaforge::config::{ConnectionConfig, SaslMechanism};
use kaforge::connections::{imported_message, import_king, is_enabled, remove, upsert, KingConnect, KingRoot, KingSr};

fn king(id: i64) -> KingConnect {
    KingConnect {
        id,
        name: String::new(),
        bootstrap_servers: String::new(),
        tls: String::new(),
        skip_tls_verify: String::new(),
        tls_cert_file: String::new(),
        tls_key_file: String::new(),
        tls_ca_file: String::new(),
        sasl: String::new(),
        sasl_mechanism: String::new(),
        sasl_user: String::new(),
        sasl_pwd: String::new(),
        kerberos_user_keytab: String::new(),
        kerberos_krb5_conf: String::new(),
        kerberos_user: String::new(),
        kerberos_realm: String::new(),
        kerberos_service_name: String::new(),
        use_ssh: String::new(),
        ssh_host: String::new(),
        ssh_port: 0,
        ssh_user: String::new(),
        ssh_password: String::new(),
        ssh_key_file: String::new(),
    }
}

fn cfg(id: &str, name: &str) -> ConnectionConfig {
    let mut c = ConnectionConfig::default();
    c.id = id.to_string();
    c.name = name.to_string();
    c
}

#[test]
fn king_yaml_maps_sasl_and_ssh() {
    let mut k = king(3);
    k.name = "prod".into();
    k.bootstrap_servers = "kafka:9092".into();
    k.tls = "enable".into();
    k.sasl = "enable".into();
    k.sasl_mechanism = "SCRAM-SHA-512".into();
    k.sasl_user = "alice".into();
    k.sasl_pwd = "secret".into();
    k.use_ssh = "enable".into();
    k.ssh_host = "bastion".into();
    k.ssh_port = 22;
    k.ssh_user = "ops".into();
    let got = import_king(KingRoot { connects: vec![k], schema_registry: None });
    assert_eq!(got.len(), 1);
    assert_eq!(got[0].id, "king-3");
    assert!(got[0].tls);
    assert!(got[0].sasl);
    assert_eq!(got[0].sasl_mechanism, SaslMechanism::ScramSha512);
    assert!(got[0].ssh);
    assert_eq!(got[0].ssh_host, "bastion");
}

#[test]
fn king_import_defaults_and_registry() {
    let mut a = king(0);
    a.kerberos_service_name = String::new();
    a.ssh_port = -5;
    a.tls = "YES".into();
    a.sasl = "off".into();
    let mut b = king(7);
    b.kerberos_service_name = "kfk".into();
    b.ssh_port = 65536 + 2222;
    let got = import_king(KingRoot {
        connects: vec![a, b],
        schema_registry: Some(KingSr {
            url: "http://sr".into(),
            user: "u".into(),
            pass: "p".into(),
            skip_tls: "false".into(),
        }),
    });
    assert_eq!(got.len(), 2);
    assert_eq!(got[0].id.len(), 36);
    assert_eq!(got[0].kerberos_service, "kafka");
    assert_eq!(got[0].ssh_port, 22);
    assert!(got[0].tls);
    assert!(!got[0].sasl);
    assert_eq!(got[1].id, "king-7");
    assert_eq!(got[1].kerberos_service, "kfk");
    assert_eq!(got[1].ssh_port, 2222);
    assert_eq!(got[1].sr.url, "http://sr");
    assert_eq!(got[1].sr.password, "p");
    assert!(!got[1].sr.skip_tls);
}

#[test]
fn king_registry_skip_tls_when_empty() {
    let got = import_king(KingRoot { connects: vec![king(1)], schema_registry: None });
    assert!(got[0].sr.skip_tls);
    assert_eq!(got[0].sr.url, "");
}

#[test]
fn king_switches() {
    assert!(is_enabled("Enable"));
    assert!(is_enabled("TRUE"));
    assert!(is_enabled("1"));
    assert!(is_enabled("yes"));
    assert!(!is_enabled("on"));
    assert!(!is_enabled(""));
}

#[test]
fn upsert_replaces_or_appends() {
    let mut all = vec![cfg("a", "one"), cfg("b", "two")];
    upsert(&mut all, cfg("b", "TWO"));
    assert_eq!(all.len(), 2);
    assert_eq!(all[1].name, "TWO");
    upsert(&mut all, cfg("c", "three"));
    assert_eq!(all.len(), 3);
    assert_eq!(all[2].id, "c");
}

#[test]
fn remove_keeps_order_of_others() {
    let mut all = vec![cfg("a", "1"), cfg("b", "2"), cfg("a", "3"), cfg("c", "4")];
    remove(&mut all, "a");
    let ids: Vec<&str> = all.iter().map(|c| c.id.as_str()).collect();
    assert_eq!(ids, vec!["b", "c"]);
}

#[test]
fn remove_undoes_upsert_of_new_id() {
    let mut all = vec![cfg("a", "1"), cfg("b", "2")];
    upsert(&mut all, cfg("z", "9"));
    remove(&mut all, "z");
    let ids: Vec<&str> = all.iter().map(|c| c.id.as_str()).collect();
    assert_eq!(ids, vec!["a", "b"]);
}

#[test]
fn import_report() {
    assert_eq!(imported_message(0), "imported 0 connections");
    assert_eq!(imported_message(12), "imported 12 connections");
}
