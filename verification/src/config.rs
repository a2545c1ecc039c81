//! Saved cluster settings.
use vstd::prelude::*;
use crate::error::Error;
use crate::text::{is_blank, is_blank_str, trim, trim_str, to_owned_string, upper_eq, to_ascii_upper};

verus! {

/// SASL mechanism of a saved cluster.
#[derive(Clone, Copy, Debug, PartialEq, Eq, Structural)]
pub enum SaslMechanism {
    Plain,
    ScramSha256,
    ScramSha512,
    Gssapi,
    Oauthbearer,
    AwsMskIam,
}

impl Default for SaslMechanism {
    fn default() -> (m: SaslMechanism)
        ensures
            m == SaslMechanism::Plain,
    {
        SaslMechanism::Plain
    }
}

/// The librdkafka `sasl.mechanism` name of a mechanism.
pub open spec fn rdkafka_mechanism_name(m: SaslMechanism) -> Seq<char> {
    match m {
        SaslMechanism::Plain => "PLAIN"@,
        SaslMechanism::ScramSha256 => "SCRAM-SHA-256"@,
        SaslMechanism::ScramSha512 => "SCRAM-SHA-512"@,
        SaslMechanism::Gssapi => "GSSAPI"@,
        SaslMechanism::Oauthbearer => "OAUTHBEARER"@,
        SaslMechanism::AwsMskIam => "OAUTHBEARER"@,
    }
}

/// The mechanism that a Kafka-King mechanism name stands for, read without
/// regard to ASCII case; an unknown name means `PLAIN`.
pub open spec fn mechanism_from_king(name: Seq<char>) -> SaslMechanism {
    let u = to_ascii_upper(name);
    if u == "SCRAM-SHA-256"@ {
        SaslMechanism::ScramSha256
    } else if u == "SCRAM-SHA-512"@ {
        SaslMechanism::ScramSha512
    } else if u == "GSSAPI"@ {
        SaslMechanism::Gssapi
    } else if u == "OAUTHBEARER"@ {
        SaslMechanism::Oauthbearer
    } else if u == "AWS_MSK_IAM"@ || u == "AWS-MSK-IAM"@ {
        SaslMechanism::AwsMskIam
    } else {
        SaslMechanism::Plain
    }
}

impl SaslMechanism {
    /// The name that librdkafka's `sasl.mechanism` takes.
    pub fn as_rdkafka(self) -> (r: &'static str)
        ensures
            r@ == rdkafka_mechanism_name(self),
    {
        match self {
            SaslMechanism::Plain => "PLAIN",
            SaslMechanism::ScramSha256 => "SCRAM-SHA-256",
            SaslMechanism::ScramSha512 => "SCRAM-SHA-512",
            SaslMechanism::Gssapi => "GSSAPI",
            SaslMechanism::Oauthbearer | SaslMechanism::AwsMskIam => "OAUTHBEARER",
        }
    }

    /// Reads a mechanism name as Kafka-King writes it.
    pub fn from_king(name: &str) -> (m: SaslMechanism)
        ensures
            m == mechanism_from_king(name@),
    {
        if upper_eq(name, "SCRAM-SHA-256") {
            SaslMechanism::ScramSha256
        } else if upper_eq(name, "SCRAM-SHA-512") {
            SaslMechanism::ScramSha512
        } else if upper_eq(name, "GSSAPI") {
            SaslMechanism::Gssapi
        } else if upper_eq(name, "OAUTHBEARER") {
            SaslMechanism::Oauthbearer
        } else if upper_eq(name, "AWS_MSK_IAM") || upper_eq(name, "AWS-MSK-IAM") {
            SaslMechanism::AwsMskIam
        } else {
            SaslMechanism::Plain
        }
    }
}

/// A mechanism's librdkafka name reads back as that mechanism, but for AWS
/// MSK IAM, whose librdkafka name `OAUTHBEARER` reads back as OAuth bearer.
pub proof fn lemma_mechanism_name_roundtrip(m: SaslMechanism)
    ensures
        m != SaslMechanism::AwsMskIam ==> mechanism_from_king(rdkafka_mechanism_name(m)) == m,
        m == SaslMechanism::AwsMskIam ==> mechanism_from_king(rdkafka_mechanism_name(m))
            == SaslMechanism::Oauthbearer,
{
    reveal_strlit("PLAIN");
    reveal_strlit("SCRAM-SHA-256");
    reveal_strlit("SCRAM-SHA-512");
    reveal_strlit("GSSAPI");
    reveal_strlit("OAUTHBEARER");
    reveal_strlit("AWS_MSK_IAM");
    reveal_strlit("AWS-MSK-IAM");
    let n = rdkafka_mechanism_name(m);
    assert(to_ascii_upper(n) =~= n);
    assert("PLAIN"@ != "SCRAM-SHA-256"@ && "PLAIN"@ != "SCRAM-SHA-512"@ && "PLAIN"@ != "GSSAPI"@
        && "PLAIN"@ != "OAUTHBEARER"@ && "PLAIN"@ != "AWS_MSK_IAM"@ && "PLAIN"@ != "AWS-MSK-IAM"@)
        by {
        assert("PLAIN"@.len() != "SCRAM-SHA-256"@.len());
        assert("PLAIN"@[0] != "GSSAPI"@[0]);
        assert("PLAIN"@[0] != "OAUTHBEARER"@[0]);
        assert("PLAIN"@[0] != "AWS_MSK_IAM"@[0]);
    }
    assert("SCRAM-SHA-256"@ != "SCRAM-SHA-512"@) by {
        assert("SCRAM-SHA-256"@[11] != "SCRAM-SHA-512"@[11]);
    }
    assert("GSSAPI"@ != "SCRAM-SHA-256"@ && "GSSAPI"@ != "SCRAM-SHA-512"@) by {
        assert("GSSAPI"@.len() != "SCRAM-SHA-256"@.len());
    }
    assert("OAUTHBEARER"@ != "SCRAM-SHA-256"@ && "OAUTHBEARER"@ != "SCRAM-SHA-512"@
        && "OAUTHBEARER"@ != "GSSAPI"@) by {
        assert("OAUTHBEARER"@.len() != "GSSAPI"@.len());
    }
}

/// The value that a missing `skip_tls` of a stored schema registry takes.
pub fn default_true() -> (r: bool)
    ensures
        r,
{
    true
}

/// Schema Registry endpoint of a cluster.
#[derive(Clone, Debug)]
pub struct SchemaRegistryConfig {
    pub url: String,
    pub user: String,
    pub password: String,
    pub skip_tls: bool,
}

impl Default for SchemaRegistryConfig {
    fn default() -> (r: SchemaRegistryConfig)
        ensures
            r.url@.len() == 0,
            r.user@.len() == 0,
            r.password@.len() == 0,
            !r.skip_tls,
    {
        SchemaRegistryConfig {
            url: String::new(),
            user: String::new(),
            password: String::new(),
            skip_tls: false,
        }
    }
}

/// Saved cluster. Passwords are kept as plain text on purpose.
#[derive(Clone, Debug)]
pub struct ConnectionConfig {
    pub id: String,
    pub name: String,
    pub bootstrap_servers: String,
    pub tls: bool,
    pub skip_tls_verify: bool,
    pub tls_cert_file: String,
    pub tls_key_file: String,
    pub tls_ca_file: String,
    pub sasl: bool,
    pub sasl_mechanism: SaslMechanism,
    pub sasl_user: String,
    pub sasl_password: String,
    pub sasl_oauth_token: String,
    pub msk_region: String,
    pub msk_profile: String,
    pub kerberos_keytab: String,
    pub kerberos_krb5: String,
    pub kerberos_principal: String,
    pub kerberos_realm: String,
    pub kerberos_service: String,
    pub ssh: bool,
    pub ssh_host: String,
    pub ssh_port: u16,
    pub ssh_user: String,
    pub ssh_password: String,
    pub ssh_key_file: String,
    pub ssh_known_hosts_path: String,
    pub monitor_webhook: String,
    pub monitor_lag_threshold: u64,
    pub sr: SchemaRegistryConfig,
}

/// Every field of `c` other than its id, SSH port and Kerberos service name
/// is empty: text fields empty, flags off, numbers zero, `PLAIN` SASL, and an
/// empty schema registry.
pub open spec fn other_fields_empty(c: ConnectionConfig) -> bool {
    &&& c.name@.len() == 0 && c.bootstrap_servers@.len() == 0
    &&& !c.tls && !c.skip_tls_verify && !c.sasl && !c.ssh
    &&& c.tls_cert_file@.len() == 0 && c.tls_key_file@.len() == 0 && c.tls_ca_file@.len() == 0
    &&& c.sasl_mechanism == SaslMechanism::Plain
    &&& c.sasl_user@.len() == 0 && c.sasl_password@.len() == 0 && c.sasl_oauth_token@.len() == 0
    &&& c.msk_region@.len() == 0 && c.msk_profile@.len() == 0
    &&& c.kerberos_keytab@.len() == 0 && c.kerberos_krb5@.len() == 0
    &&& c.kerberos_principal@.len() == 0 && c.kerberos_realm@.len() == 0
    &&& c.ssh_host@.len() == 0 && c.ssh_user@.len() == 0
    &&& c.ssh_password@.len() == 0 && c.ssh_key_file@.len() == 0
    &&& c.ssh_known_hosts_path@.len() == 0
    &&& c.monitor_webhook@.len() == 0 && c.monitor_lag_threshold == 0
    &&& c.sr.url@.len() == 0 && c.sr.user@.len() == 0 && c.sr.password@.len() == 0
    &&& !c.sr.skip_tls
}

/// Every field of `c` is empty, off or zero.
pub open spec fn is_empty_config(c: ConnectionConfig) -> bool {
    &&& c.id@.len() == 0 && c.ssh_port == 0 && c.kerberos_service@.len() == 0
    &&& other_fields_empty(c)
}

impl Default for ConnectionConfig {
    fn default() -> (c: ConnectionConfig)
        ensures
            is_empty_config(c),
    {
        ConnectionConfig {
            id: String::new(),
            name: String::new(),
            bootstrap_servers: String::new(),
            tls: false,
            skip_tls_verify: false,
            tls_cert_file: String::new(),
            tls_key_file: String::new(),
            tls_ca_file: String::new(),
            sasl: false,
            sasl_mechanism: SaslMechanism::Plain,
            sasl_user: String::new(),
            sasl_password: String::new(),
            sasl_oauth_token: String::new(),
            msk_region: String::new(),
            msk_profile: String::new(),
            kerberos_keytab: String::new(),
            kerberos_krb5: String::new(),
            kerberos_principal: String::new(),
            kerberos_realm: String::new(),
            kerberos_service: String::new(),
            ssh: false,
            ssh_host: String::new(),
            ssh_port: 0,
            ssh_user: String::new(),
            ssh_password: String::new(),
            ssh_key_file: String::new(),
            ssh_known_hosts_path: String::new(),
            monitor_webhook: String::new(),
            monitor_lag_threshold: 0,
            sr: SchemaRegistryConfig::default(),
        }
    }
}

/// A lower-case hexadecimal digit.
pub open spec fn is_lower_hex(c: char) -> bool {
    ('0' <= c && c <= '9') || ('a' <= c && c <= 'f')
}

/// The hyphenated lower-case text of a version 7 UUID: 36 characters in
/// groups of 8, 4, 4, 4 and 12 hexadecimal digits, version digit `7`, and
/// variant digit `8` to `b`.
pub open spec fn uuid_v7_text(s: Seq<char>) -> bool {
    &&& s.len() == 36
    &&& forall|i: int|
        0 <= i < 36 ==> if i == 8 || i == 13 || i == 18 || i == 23 {
            #[trigger] s[i] == '-'
        } else {
            is_lower_hex(s[i])
        }
    &&& s[14] == '7'
    &&& (s[19] == '8' || s[19] == '9' || s[19] == 'a' || s[19] == 'b')
}

/// A fresh time-ordered identifier: `uuid::Uuid::now_v7()` in its
/// hyphenated text form (`Display`), which the crate writes in lower case
/// with the version digit 7 and the RFC 9562 variant bits. Which digits
/// the clock and the random source give is not said.
#[verifier::external_body]
pub(crate) fn new_uuid_v7() -> (r: String)
    ensures
        uuid_v7_text(r@),
{
    uuid::Uuid::now_v7().to_string()
}

/// The name under which a saved cluster is listed.
pub open spec fn display_name_of(c: ConnectionConfig) -> Seq<char> {
    if is_blank(c.name@) {
        c.bootstrap_servers@
    } else {
        c.name@
    }
}

/// The region in which an MSK IAM token is minted.
pub open spec fn msk_region_of(c: ConnectionConfig) -> Seq<char> {
    if is_blank(c.msk_region@) {
        "us-east-1"@
    } else {
        trim(c.msk_region@)
    }
}

/// The settings ask for an AWS MSK IAM token before connecting.
pub open spec fn needs_msk_token(c: ConnectionConfig) -> bool {
    c.sasl && c.sasl_mechanism == SaslMechanism::AwsMskIam
}

/// The settings once a minted token is in place: the token is the SASL
/// password and TLS is on.
pub open spec fn with_msk_token(c: ConnectionConfig, token: String) -> ConnectionConfig {
    ConnectionConfig { sasl_password: token, tls: true, ..c }
}

impl ConnectionConfig {
    /// A blank cluster: a fresh version 7 UUID as id, SSH port 22, Kerberos service `kafka`,
    /// everything else empty.
    pub fn new_blank() -> (c: ConnectionConfig)
        ensures
            uuid_v7_text(c.id@),
            c.ssh_port == 22,
            c.kerberos_service@ == "kafka"@,
            other_fields_empty(c),
    {
        let base = ConnectionConfig::default();
        ConnectionConfig {
            id: new_uuid_v7(),
            ssh_port: 22,
            kerberos_service: to_owned_string("kafka"),
            ..base
        }
    }

    /// The name, or the bootstrap servers where the name is blank.
    pub fn display_name(&self) -> (r: &str)
        ensures
            r@ == display_name_of(*self),
    {
        if is_blank_str(self.name.as_str()) {
            self.bootstrap_servers.as_str()
        } else {
            self.name.as_str()
        }
    }
}

impl SchemaRegistryConfig {
    /// A copy, field by field.
    pub fn copy(&self) -> (r: SchemaRegistryConfig)
        ensures
            r == *self,
    {
        SchemaRegistryConfig {
            url: self.url.clone(),
            user: self.user.clone(),
            password: self.password.clone(),
            skip_tls: self.skip_tls,
        }
    }
}

impl ConnectionConfig {
    /// A copy, field by field.
    pub fn copy(&self) -> (r: ConnectionConfig)
        ensures
            r == *self,
    {
        ConnectionConfig {
            id: self.id.clone(),
            name: self.name.clone(),
            bootstrap_servers: self.bootstrap_servers.clone(),
            tls: self.tls,
            skip_tls_verify: self.skip_tls_verify,
            tls_cert_file: self.tls_cert_file.clone(),
            tls_key_file: self.tls_key_file.clone(),
            tls_ca_file: self.tls_ca_file.clone(),
            sasl: self.sasl,
            sasl_mechanism: self.sasl_mechanism,
            sasl_user: self.sasl_user.clone(),
            sasl_password: self.sasl_password.clone(),
            sasl_oauth_token: self.sasl_oauth_token.clone(),
            msk_region: self.msk_region.clone(),
            msk_profile: self.msk_profile.clone(),
            kerberos_keytab: self.kerberos_keytab.clone(),
            kerberos_krb5: self.kerberos_krb5.clone(),
            kerberos_principal: self.kerberos_principal.clone(),
            kerberos_realm: self.kerberos_realm.clone(),
            kerberos_service: self.kerberos_service.clone(),
            ssh: self.ssh,
            ssh_host: self.ssh_host.clone(),
            ssh_port: self.ssh_port,
            ssh_user: self.ssh_user.clone(),
            ssh_password: self.ssh_password.clone(),
            ssh_key_file: self.ssh_key_file.clone(),
            ssh_known_hosts_path: self.ssh_known_hosts_path.clone(),
            monitor_webhook: self.monitor_webhook.clone(),
            monitor_lag_threshold: self.monitor_lag_threshold,
            sr: self.sr.copy(),
        }
    }
}

/// The named AWS profile that an MSK IAM token is minted with: the trimmed
/// profile, none where it is blank (the default credentials).
pub fn msk_profile(profile: &str) -> (r: Option<&str>)
    ensures
        match r {
            Some(p) => !is_blank(profile@) && p@ == trim(profile@),
            None => is_blank(profile@),
        },
{
    if is_blank_str(profile) {
        None
    } else {
        Some(trim_str(profile))
    }
}

/// The error of a failed MSK IAM token request.
pub fn msk_token_error(detail: &str) -> (e: Error)
    ensures
        e matches Error::Msg(t) && t@ == "MSK IAM token: "@ + detail@,
{
    let mut t = to_owned_string("MSK IAM token: ");
    t.append(detail);
    Error::msg(t)
}

/// Makes settings ready for connecting: where they ask for AWS MSK IAM,
/// `mint` is asked for a token with the region (trimmed, `us-east-1` when
/// blank) and the profile, and the token becomes the SASL password with TLS
/// on; a failure of `mint` is returned as it came.
pub fn prepare_config<F: FnOnce(String, String) -> Result<String, Error>>(
    cfg: ConnectionConfig,
    mint: F,
) -> (r: Result<ConnectionConfig, Error>)
    requires
        forall|region: String, profile: String| call_requires(mint, (region, profile)),
    ensures
        !needs_msk_token(cfg) ==> r == Ok::<ConnectionConfig, Error>(cfg),
        needs_msk_token(cfg) ==> exists|region: String, profile: String, out: Result<String, Error>|
            {
                &&& region@ == msk_region_of(cfg)
                &&& profile == cfg.msk_profile
                &&& call_ensures(mint, (region, profile), out)
                &&& r == match out {
                    Ok(token) => Ok(with_msk_token(cfg, token)),
                    Err(e) => Err::<ConnectionConfig, Error>(e),
                }
            },
{
    if cfg.sasl && cfg.sasl_mechanism == SaslMechanism::AwsMskIam {
        let region = if is_blank_str(cfg.msk_region.as_str()) {
            to_owned_string("us-east-1")
        } else {
            to_owned_string(trim_str(cfg.msk_region.as_str()))
        };
        let profile = cfg.msk_profile.clone();
        let out = mint(region, profile);
        let mut cfg = cfg;
        match out {
            Ok(token) => {
                cfg.sasl_password = token;
                cfg.tls = true;
                Ok(cfg)
            },
            Err(e) => Err(e),
        }
    } else {
        Ok(cfg)
    }
}

} // verus!
