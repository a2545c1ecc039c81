use kaforge::config::{msk_profile, msk_token_error, prepare_config, ConnectionConfig, SaslMechanism, default_true};
use kaforge::error::Error;

#[test]
fn sasl_names_for_rdkafka() {
    assert_eq!(SaslMechanism::Plain.as_rdkafka(), "PLAIN");
    assert_eq!(SaslMechanism::ScramSha256.as_rdkafka(), "SCRAM-SHA-256");
    assert_eq!(SaslMechanism::ScramSha512.as_rdkafka(), "SCRAM-SHA-512");
    assert_eq!(SaslMechanism::Gssapi.as_rdkafka(), "GSSAPI");
    assert_eq!(SaslMechanism::Oauthbearer.as_rdkafka(), "OAUTHBEARER");
    assert_eq!(SaslMechanism::AwsMskIam.as_rdkafka(), "OAUTHBEARER");
}

#[test]
fn sasl_from_king_names() {
    assert_eq!(SaslMechanism::from_king("scram-sha-256"), SaslMechanism::ScramSha256);
    assert_eq!(SaslMechanism::from_king("SCRAM-SHA-512"), SaslMechanism::ScramSha512);
    assert_eq!(SaslMechanism::from_king("gssapi"), SaslMechanism::Gssapi);
    assert_eq!(SaslMechanism::from_king("OAuthBearer"), SaslMechanism::Oauthbearer);
    assert_eq!(SaslMechanism::from_king("aws_msk_iam"), SaslMechanism::AwsMskIam);
    assert_eq!(SaslMechanism::from_king("AWS-MSK-IAM"), SaslMechanism::AwsMskIam);
    assert_eq!(SaslMechanism::from_king("plain"), SaslMechanism::Plain);
    assert_eq!(SaslMechanism::from_king("something"), SaslMechanism::Plain);
    assert_eq!(SaslMechanism::from_king(""), SaslMechanism::Plain);
}

#[test]
fn new_blank_defaults() {
    let c = ConnectionConfig::new_blank();
    assert_eq!(c.id.len(), 36);
    assert_eq!(c.ssh_port, 22);
    assert_eq!(c.kerberos_service, "kafka");
    assert!(c.name.is_empty() && !c.tls && !c.sasl && c.sr.url.is_empty());
    assert_ne!(ConnectionConfig::new_blank().id, c.id);
    assert!(default_true());
}

#[test]
fn display_name_falls_back_to_bootstrap() {
    let mut c = ConnectionConfig::default();
    c.bootstrap_servers = "k:9092".into();
    c.name = " \t ".into();
    assert_eq!(c.display_name(), "k:9092");
    c.name = " prod ".into();
    assert_eq!(c.display_name(), " prod ");
}

#[test]
fn prepare_config_without_msk_is_unchanged() {
    let mut c = ConnectionConfig::default();
    c.sasl = true;
    c.sasl_mechanism = SaslMechanism::Plain;
    c.sasl_password = "pw".into();
    let out = prepare_config(c, |_r: String, _p: String| -> Result<String, Error> { panic!("no token needed") }).unwrap();
    assert_eq!(out.sasl_password, "pw");
    assert!(!out.tls);
}

#[test]
fn prepare_config_mints_msk_token() {
    let mut c = ConnectionConfig::default();
    c.sasl = true;
    c.sasl_mechanism = SaslMechanism::AwsMskIam;
    c.msk_region = "  ".into();
    c.msk_profile = "dev".into();
    let out = prepare_config(c, |r: String, p: String| -> Result<String, Error> {
        assert_eq!(r, "us-east-1");
        assert_eq!(p, "dev");
        Ok("tok".into())
    })
    .unwrap();
    assert_eq!(out.sasl_password, "tok");
    assert!(out.tls);
}

#[test]
fn prepare_config_trims_region_and_passes_errors() {
    let mut c = ConnectionConfig::default();
    c.sasl = true;
    c.sasl_mechanism = SaslMechanism::AwsMskIam;
    c.msk_region = " eu-west-1 ".into();
    let out = prepare_config(c, |r: String, _p: String| -> Result<String, Error> {
        assert_eq!(r, "eu-west-1");
        Err(Error::msg("MSK IAM token: denied".into()))
    });
    match out {
        Err(e) => assert_eq!(e.message(), "MSK IAM token: denied"),
        Ok(_) => panic!("expected an error"),
    }
}

#[test]
fn msk_profile_choice() {
    assert_eq!(msk_profile("  "), None);
    assert_eq!(msk_profile(""), None);
    assert_eq!(msk_profile(" dev "), Some("dev"));
    assert_eq!(msk_token_error("expired").message(), "MSK IAM token: expired");
}

fn is_v7_text(id: &str) -> bool {
    let b = id.as_bytes();
    b.len() == 36
        && b.iter().enumerate().all(|(i, c)| {
            if [8, 13, 18, 23].contains(&i) { *c == b'-' } else { c.is_ascii_digit() || (b'a'..=b'f').contains(c) }
        })
        && b[14] == b'7'
        && [b'8', b'9', b'a', b'b'].contains(&b[19])
}

#[test]
fn blank_ids_are_uuid_v7_text() {
    let a = ConnectionConfig::new_blank();
    let b = ConnectionConfig::new_blank();
    assert!(is_v7_text(&a.id), "{}", a.id);
    assert!(is_v7_text(&b.id), "{}", b.id);
    assert_ne!(a.id, b.id);
}
