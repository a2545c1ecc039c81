use kaforge::config::{ConnectionConfig, SaslMechanism};
use kaforge::picker::{apply_connection_form, form_base, saved_label, ConnectionForm};

fn form() -> ConnectionForm {
    ConnectionForm {
        name: "prod".into(),
        bootstrap: "k:9092".into(),
        sasl_user: String::new(),
        sasl_password: String::new(),
        sr_url: "http://sr".into(),
        mechanism: "gssapi".into(),
        kerberos: "p@R".into(),
        msk_region: String::new(),
        webhook: "https://hook".into(),
        ssh_host: String::new(),
        ssh_user: String::new(),
        tls: true,
        ssh: false,
    }
}

#[test]
fn form_is_applied() {
    let mut base = ConnectionConfig::default();
    base.id = "x".into();
    base.kerberos_keytab = "/k.tab".into();
    let c = apply_connection_form(base, form()).unwrap();
    assert_eq!(c.id, "x");
    assert_eq!(c.kerberos_keytab, "/k.tab");
    assert_eq!(c.name, "prod");
    assert_eq!(c.sasl_mechanism, SaslMechanism::Gssapi);
    assert!(c.sasl);
    assert!(c.tls);
    assert_eq!(c.monitor_lag_threshold, 10_000);
    assert_eq!(c.sr.url, "http://sr");
}

#[test]
fn form_sasl_follows_user() {
    let mut f = form();
    f.mechanism = "plain".into();
    f.webhook = String::new();
    let c = apply_connection_form(ConnectionConfig::default(), f.clone()).unwrap();
    assert!(!c.sasl);
    assert_eq!(c.monitor_lag_threshold, 0);
    f.sasl_user = "u".into();
    let mut base = ConnectionConfig::default();
    base.monitor_lag_threshold = 5;
    f.webhook = "h".into();
    let c = apply_connection_form(base, f).unwrap();
    assert!(c.sasl);
    assert_eq!(c.monitor_lag_threshold, 5);
}

#[test]
fn form_needs_bootstrap() {
    let mut f = form();
    f.bootstrap = "  ".into();
    let e = apply_connection_form(ConnectionConfig::default(), f).unwrap_err();
    assert_eq!(e.message(), "bootstrap servers required");
}

#[test]
fn form_base_picks_selection() {
    let mut a = ConnectionConfig::default();
    a.id = "a".into();
    a.name = "A".into();
    let saved = vec![a];
    assert_eq!(form_base(&saved, Some("a")).name, "A");
    let fresh = form_base(&saved, Some("zz"));
    assert_eq!(fresh.id.len(), 36);
    assert_eq!(fresh.ssh_port, 22);
    assert_eq!(form_base(&saved, None).kerberos_service, "kafka");
}

#[test]
fn form_fills_from_saved() {
    let mut c = ConnectionConfig::default();
    c.name = "prod".into();
    c.bootstrap_servers = "k:9092".into();
    c.sasl_mechanism = SaslMechanism::ScramSha512;
    c.sasl_user = "u".into();
    c.sasl = true;
    c.ssh = true;
    c.monitor_webhook = "https://hook".into();
    c.monitor_lag_threshold = 7;
    let f = ConnectionForm::of_config(&c);
    assert_eq!(f.name, "prod");
    assert_eq!(f.bootstrap, "k:9092");
    assert_eq!(f.mechanism, "SCRAM-SHA-512");
    assert!(f.ssh);
    assert!(!f.tls);
    let again = apply_connection_form(c.clone(), f).unwrap();
    assert_eq!(again.sasl_mechanism, SaslMechanism::ScramSha512);
    assert!(again.sasl);
    assert_eq!(again.monitor_lag_threshold, 7);
    assert_eq!(again.name, c.name);
}

#[test]
fn msk_form_reads_back_as_oauth() {
    let mut c = ConnectionConfig::default();
    c.bootstrap_servers = "k:9098".into();
    c.sasl_mechanism = SaslMechanism::AwsMskIam;
    c.sasl = true;
    let f = ConnectionForm::of_config(&c);
    assert_eq!(f.mechanism, "OAUTHBEARER");
    let again = apply_connection_form(c, f).unwrap();
    assert_eq!(again.sasl_mechanism, SaslMechanism::Oauthbearer);
}

#[test]
fn saved_label_shows_name_and_servers() {
    let mut c = ConnectionConfig::default();
    c.bootstrap_servers = "k:9092".into();
    assert_eq!(saved_label(&c), "k:9092  k:9092");
    c.name = "prod".into();
    assert_eq!(saved_label(&c), "prod  k:9092");
}
