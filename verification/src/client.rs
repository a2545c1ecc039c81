//! What the Kafka client is configured with, and the plain records that the
//! cluster's answers are turned into.
use vstd::prelude::*;
use rdkafka::config::ClientConfig;
use crate::config::{ConnectionConfig, SaslMechanism, rdkafka_mechanism_name, new_uuid_v7, uuid_v7_text};
use crate::stream::ConsumedRecord;
use crate::text::{is_blank, is_blank_str, trim, trim_str, push_decimal, push_int, int_text, to_owned_string};

verus! {

#[verifier::external_type_specification]
#[verifier::external_body]
pub struct ExClientConfig(ClientConfig);

/// The settings that an rdkafka `ClientConfig` holds, key to value.
pub uninterp spec fn config_entries(c: ClientConfig) -> Map<Seq<char>, Seq<char>>;

/// rdkafka `ClientConfig::new`: its source builds an empty map of settings.
#[verifier::external_body]
fn new_client_config() -> (r: ClientConfig)
    ensures
        config_entries(r).dom() == Set::<Seq<char>>::empty(),
{
    ClientConfig::new()
}

/// rdkafka `ClientConfig::set`: its source inserts `value` under `key` in the
/// map of settings, replacing any earlier value.
#[verifier::external_body]
fn config_set(c: &mut ClientConfig, key: &str, value: &str)
    ensures
        config_entries(*final(c)) == config_entries(*old(c)).insert(key@, value@),
{
    c.set(key, value);
}

/// The map with `k` set to `v` where `cond` holds.
pub open spec fn put_if(
    m: Map<Seq<char>, Seq<char>>,
    cond: bool,
    k: Seq<char>,
    v: Seq<char>,
) -> Map<Seq<char>, Seq<char>> {
    if cond {
        m.insert(k, v)
    } else {
        m
    }
}

/// Settings that every client gets.
pub open spec fn base_settings(cfg: ConnectionConfig) -> Map<Seq<char>, Seq<char>> {
    Map::empty().insert("bootstrap.servers"@, cfg.bootstrap_servers@).insert(
        "client.id"@,
        "kaforge"@,
    ).insert("socket.timeout.ms"@, "15000"@).insert("api.version.request"@, "true"@)
}

/// The security protocol: `ssl`/`sasl_ssl` with TLS, `sasl_plaintext` with
/// SASL alone, none otherwise; with TLS also the verification switch and the
/// trimmed certificate paths that are not blank.
pub open spec fn tls_settings(
    cfg: ConnectionConfig,
    m: Map<Seq<char>, Seq<char>>,
) -> Map<Seq<char>, Seq<char>> {
    if cfg.tls {
        let m1 = m.insert(
            "security.protocol"@,
            if cfg.sasl {
                "sasl_ssl"@
            } else {
                "ssl"@
            },
        );
        let m2 = put_if(m1, cfg.skip_tls_verify, "enable.ssl.certificate.verification"@, "false"@);
        let m3 = put_if(m2, !is_blank(cfg.tls_ca_file@), "ssl.ca.location"@, trim(cfg.tls_ca_file@));
        let m4 = put_if(
            m3,
            !is_blank(cfg.tls_cert_file@),
            "ssl.certificate.location"@,
            trim(cfg.tls_cert_file@),
        );
        put_if(m4, !is_blank(cfg.tls_key_file@), "ssl.key.location"@, trim(cfg.tls_key_file@))
    } else {
        put_if(m, cfg.sasl, "security.protocol"@, "sasl_plaintext"@)
    }
}

/// The SASL settings of each mechanism.
pub open spec fn sasl_settings(
    cfg: ConnectionConfig,
    m: Map<Seq<char>, Seq<char>>,
) -> Map<Seq<char>, Seq<char>> {
    if !cfg.sasl {
        m
    } else {
        let m1 = m.insert("sasl.mechanism"@, rdkafka_mechanism_name(cfg.sasl_mechanism));
        match cfg.sasl_mechanism {
            SaslMechanism::Gssapi => {
                let m2 = put_if(
                    m1,
                    cfg.kerberos_principal@.len() > 0,
                    "sasl.kerberos.principal"@,
                    cfg.kerberos_principal@,
                );
                let m3 = put_if(
                    m2,
                    cfg.kerberos_keytab@.len() > 0,
                    "sasl.kerberos.keytab"@,
                    cfg.kerberos_keytab@,
                );
                put_if(
                    m3,
                    cfg.kerberos_service@.len() > 0,
                    "sasl.kerberos.service.name"@,
                    cfg.kerberos_service@,
                )
            },
            SaslMechanism::Oauthbearer => {
                if cfg.sasl_oauth_token@.len() > 0 {
                    m1.insert("sasl.oauthbearer.token"@, cfg.sasl_oauth_token@)
                } else {
                    put_if(
                        m1,
                        cfg.sasl_password@.len() > 0,
                        "sasl.oauthbearer.token"@,
                        cfg.sasl_password@,
                    )
                }
            },
            SaslMechanism::AwsMskIam => {
                put_if(
                    m1.insert("sasl.mechanism"@, "OAUTHBEARER"@),
                    cfg.sasl_password@.len() > 0,
                    "sasl.oauthbearer.token"@,
                    cfg.sasl_password@,
                )
            },
            _ => m1.insert("sasl.username"@, cfg.sasl_user@).insert(
                "sasl.password"@,
                cfg.sasl_password@,
            ),
        }
    }
}

/// Everything that a client of `cfg` is configured with.
pub open spec fn client_settings(cfg: ConnectionConfig) -> Map<Seq<char>, Seq<char>> {
    sasl_settings(cfg, tls_settings(cfg, base_settings(cfg)))
}

/// The rdkafka configuration of a cluster's clients.
pub fn build_client_config(cfg: &ConnectionConfig) -> (r: Result<ClientConfig, crate::error::Error>)
    ensures
        r matches Ok(c) && config_entries(c) == client_settings(*cfg),
        r matches Ok(c) && config_entries(c).contains_key("bootstrap.servers"@) && config_entries(c)["bootstrap.servers"@]
            == cfg.bootstrap_servers@,
        cfg.tls && !is_blank(cfg.tls_cert_file@) ==> (r matches Ok(c) && config_entries(c).contains_key(
            "ssl.certificate.location"@,
        ) && config_entries(c)["ssl.certificate.location"@] == trim(cfg.tls_cert_file@)),
        cfg.tls && !is_blank(cfg.tls_ca_file@) ==> (r matches Ok(c) && config_entries(c).contains_key(
            "ssl.ca.location"@,
        ) && config_entries(c)["ssl.ca.location"@] == trim(cfg.tls_ca_file@)),
        cfg.tls && !is_blank(cfg.tls_key_file@) ==> (r matches Ok(c) && config_entries(c).contains_key(
            "ssl.key.location"@,
        ) && config_entries(c)["ssl.key.location"@] == trim(cfg.tls_key_file@)),
        cfg.sasl && (cfg.sasl_mechanism == SaslMechanism::Plain || cfg.sasl_mechanism
            == SaslMechanism::ScramSha256 || cfg.sasl_mechanism == SaslMechanism::ScramSha512) ==> (r matches Ok(c)
            && config_entries(c).contains_key("sasl.username"@) && config_entries(c)["sasl.username"@]
            == cfg.sasl_user@ && config_entries(c).contains_key("sasl.password"@) && config_entries(
            c,
        )["sasl.password"@] == cfg.sasl_password@),
{
    proof {
        lemma_bootstrap_servers(*cfg);
        lemma_tls_files(*cfg);
        lemma_sasl_credentials(*cfg);
    }
    let mut c = new_client_config();
    config_set(&mut c, "bootstrap.servers", cfg.bootstrap_servers.as_str());
    config_set(&mut c, "client.id", "kaforge");
    config_set(&mut c, "socket.timeout.ms", "15000");
    config_set(&mut c, "api.version.request", "true");
    let ghost m0 = config_entries(c);
    assert(m0 =~= base_settings(*cfg));
    if cfg.tls {
        config_set(&mut c, "security.protocol", if cfg.sasl { "sasl_ssl" } else { "ssl" });
        if cfg.skip_tls_verify {
            config_set(&mut c, "enable.ssl.certificate.verification", "false");
        }
        if !is_blank_str(cfg.tls_ca_file.as_str()) {
            config_set(&mut c, "ssl.ca.location", trim_str(cfg.tls_ca_file.as_str()));
        }
        if !is_blank_str(cfg.tls_cert_file.as_str()) {
            config_set(&mut c, "ssl.certificate.location", trim_str(cfg.tls_cert_file.as_str()));
        }
        if !is_blank_str(cfg.tls_key_file.as_str()) {
            config_set(&mut c, "ssl.key.location", trim_str(cfg.tls_key_file.as_str()));
        }
    } else if cfg.sasl {
        config_set(&mut c, "security.protocol", "sasl_plaintext");
    }
    let ghost m1 = config_entries(c);
    assert(m1 == tls_settings(*cfg, m0));
    if cfg.sasl {
        config_set(&mut c, "sasl.mechanism", cfg.sasl_mechanism.as_rdkafka());
        match cfg.sasl_mechanism {
            SaslMechanism::Gssapi => {
                if !cfg.kerberos_principal.as_str().is_empty() {
                    config_set(&mut c, "sasl.kerberos.principal", cfg.kerberos_principal.as_str());
                }
                if !cfg.kerberos_keytab.as_str().is_empty() {
                    config_set(&mut c, "sasl.kerberos.keytab", cfg.kerberos_keytab.as_str());
                }
                if !cfg.kerberos_service.as_str().is_empty() {
                    config_set(
                        &mut c,
                        "sasl.kerberos.service.name",
                        cfg.kerberos_service.as_str(),
                    );
                }
            },
            SaslMechanism::Oauthbearer => {
                if !cfg.sasl_oauth_token.as_str().is_empty() {
                    config_set(&mut c, "sasl.oauthbearer.token", cfg.sasl_oauth_token.as_str());
                } else if !cfg.sasl_password.as_str().is_empty() {
                    config_set(&mut c, "sasl.oauthbearer.token", cfg.sasl_password.as_str());
                }
            },
            SaslMechanism::AwsMskIam => {
                config_set(&mut c, "sasl.mechanism", "OAUTHBEARER");
                if !cfg.sasl_password.as_str().is_empty() {
                    config_set(&mut c, "sasl.oauthbearer.token", cfg.sasl_password.as_str());
                }
            },
            _ => {
                config_set(&mut c, "sasl.username", cfg.sasl_user.as_str());
                config_set(&mut c, "sasl.password", cfg.sasl_password.as_str());
            },
        }
    }
    Ok(c)
}

/// A client speaks TLS, SASL over TLS or SASL in plain text exactly as the
/// settings ask, and names no protocol where they ask for neither.
pub proof fn lemma_security_protocol(cfg: ConnectionConfig)
    ensures
        client_settings(cfg).contains_key("security.protocol"@) == (cfg.tls || cfg.sasl),
        cfg.tls ==> client_settings(cfg)["security.protocol"@] == if cfg.sasl {
            "sasl_ssl"@
        } else {
            "ssl"@
        },
        !cfg.tls && cfg.sasl ==> client_settings(cfg)["security.protocol"@] == "sasl_plaintext"@,
{
    reveal_strlit("bootstrap.servers");
    reveal_strlit("client.id");
    reveal_strlit("socket.timeout.ms");
    reveal_strlit("api.version.request");
    reveal_strlit("security.protocol");
    reveal_strlit("enable.ssl.certificate.verification");
    reveal_strlit("ssl.ca.location");
    reveal_strlit("ssl.certificate.location");
    reveal_strlit("ssl.key.location");
    reveal_strlit("sasl.mechanism");
    reveal_strlit("sasl.kerberos.principal");
    reveal_strlit("sasl.kerberos.keytab");
    reveal_strlit("sasl.kerberos.service.name");
    reveal_strlit("sasl.oauthbearer.token");
    reveal_strlit("sasl.username");
    reveal_strlit("sasl.password");
    assert("security.protocol"@[0] != "bootstrap.servers"@[0]);
    assert("security.protocol"@[1] != "socket.timeout.ms"@[1]);
}

/// With SASL the client names the mechanism's librdkafka name (AWS MSK IAM
/// through OAUTHBEARER); without SASL it names none.
pub proof fn lemma_sasl_mechanism(cfg: ConnectionConfig)
    ensures
        cfg.sasl ==> client_settings(cfg).contains_key("sasl.mechanism"@) && client_settings(
            cfg,
        )["sasl.mechanism"@] == rdkafka_mechanism_name(cfg.sasl_mechanism),
        !cfg.sasl ==> !client_settings(cfg).contains_key("sasl.mechanism"@),
{
    reveal_strlit("bootstrap.servers");
    reveal_strlit("client.id");
    reveal_strlit("socket.timeout.ms");
    reveal_strlit("api.version.request");
    reveal_strlit("security.protocol");
    reveal_strlit("enable.ssl.certificate.verification");
    reveal_strlit("ssl.ca.location");
    reveal_strlit("ssl.certificate.location");
    reveal_strlit("ssl.key.location");
    reveal_strlit("sasl.mechanism");
    reveal_strlit("sasl.kerberos.principal");
    reveal_strlit("sasl.kerberos.keytab");
    reveal_strlit("sasl.kerberos.service.name");
    reveal_strlit("sasl.oauthbearer.token");
    reveal_strlit("sasl.username");
    reveal_strlit("sasl.password");
    reveal_strlit("OAUTHBEARER");
    let k = "sasl.mechanism"@;
    assert(k.len() == 14);
    let m0 = tls_settings(cfg, base_settings(cfg));
    assert(!m0.contains_key(k));
    if cfg.sasl {
        match cfg.sasl_mechanism {
            SaslMechanism::Gssapi => {},
            SaslMechanism::Oauthbearer => {},
            SaslMechanism::AwsMskIam => {},
            _ => {},
        }
    }
}

proof fn lemma_setting_keys()
    ensures
        "bootstrap.servers"@.len() == 17,
        "client.id"@.len() == 9,
        "socket.timeout.ms"@.len() == 17,
        "api.version.request"@.len() == 19,
        "security.protocol"@.len() == 17,
        "enable.ssl.certificate.verification"@.len() == 35,
        "ssl.ca.location"@.len() == 15,
        "ssl.certificate.location"@.len() == 24,
        "ssl.key.location"@.len() == 16,
        "sasl.mechanism"@.len() == 14,
        "sasl.kerberos.principal"@.len() == 23,
        "sasl.kerberos.keytab"@.len() == 20,
        "sasl.kerberos.service.name"@.len() == 26,
        "sasl.oauthbearer.token"@.len() == 22,
        "sasl.username"@.len() == 13,
        "sasl.password"@.len() == 13,
        "bootstrap.servers"@ != "security.protocol"@,
        "bootstrap.servers"@ != "socket.timeout.ms"@,
        "security.protocol"@ != "socket.timeout.ms"@,
        "sasl.username"@ != "sasl.password"@,
{
    reveal_strlit("bootstrap.servers");
    reveal_strlit("client.id");
    reveal_strlit("socket.timeout.ms");
    reveal_strlit("api.version.request");
    reveal_strlit("security.protocol");
    reveal_strlit("enable.ssl.certificate.verification");
    reveal_strlit("ssl.ca.location");
    reveal_strlit("ssl.certificate.location");
    reveal_strlit("ssl.key.location");
    reveal_strlit("sasl.mechanism");
    reveal_strlit("sasl.kerberos.principal");
    reveal_strlit("sasl.kerberos.keytab");
    reveal_strlit("sasl.kerberos.service.name");
    reveal_strlit("sasl.oauthbearer.token");
    reveal_strlit("sasl.username");
    reveal_strlit("sasl.password");
    assert("bootstrap.servers"@[0] != "security.protocol"@[0]);
    assert("bootstrap.servers"@[0] != "socket.timeout.ms"@[0]);
    assert("security.protocol"@[1] != "socket.timeout.ms"@[1]);
    assert("sasl.username"@[5] != "sasl.password"@[5]);
}

/// Every client is pointed at the cluster's bootstrap servers.
pub proof fn lemma_bootstrap_servers(cfg: ConnectionConfig)
    ensures
        client_settings(cfg).contains_key("bootstrap.servers"@),
        client_settings(cfg)["bootstrap.servers"@] == cfg.bootstrap_servers@,
{
    lemma_setting_keys();
}

/// With TLS on, each certificate file that is given (the CA, the client's
/// certificate, its key) is passed to librdkafka by its trimmed path, and
/// one that is blank is not passed at all; certificate checks are switched
/// off only where the settings ask. Without TLS no certificate file is
/// passed.
pub proof fn lemma_tls_files(cfg: ConnectionConfig)
    ensures
        cfg.tls && !is_blank(cfg.tls_ca_file@) ==> client_settings(cfg).contains_key("ssl.ca.location"@)
            && client_settings(cfg)["ssl.ca.location"@] == trim(cfg.tls_ca_file@),
        cfg.tls && !is_blank(cfg.tls_cert_file@) ==> client_settings(cfg).contains_key(
            "ssl.certificate.location"@,
        ) && client_settings(cfg)["ssl.certificate.location"@] == trim(cfg.tls_cert_file@),
        cfg.tls && !is_blank(cfg.tls_key_file@) ==> client_settings(cfg).contains_key("ssl.key.location"@)
            && client_settings(cfg)["ssl.key.location"@] == trim(cfg.tls_key_file@),
        is_blank(cfg.tls_ca_file@) || !cfg.tls ==> !client_settings(cfg).contains_key("ssl.ca.location"@),
        is_blank(cfg.tls_cert_file@) || !cfg.tls ==> !client_settings(cfg).contains_key(
            "ssl.certificate.location"@,
        ),
        is_blank(cfg.tls_key_file@) || !cfg.tls ==> !client_settings(cfg).contains_key("ssl.key.location"@),
        client_settings(cfg).contains_key("enable.ssl.certificate.verification"@) == (cfg.tls
            && cfg.skip_tls_verify),
        cfg.tls && cfg.skip_tls_verify ==> client_settings(cfg)["enable.ssl.certificate.verification"@]
            == "false"@,
{
    lemma_setting_keys();
}

/// With SASL on, the credentials reach librdkafka as each mechanism takes
/// them: user name and password for PLAIN and SCRAM; the Kerberos principal,
/// keytab and service name that are given for GSSAPI; the OAuth token (else
/// the password) for OAuth bearer; the minted token held as password for
/// AWS MSK IAM. Without SASL no user name or password is passed.
pub proof fn lemma_sasl_credentials(cfg: ConnectionConfig)
    ensures
        cfg.sasl && (cfg.sasl_mechanism == SaslMechanism::Plain || cfg.sasl_mechanism
            == SaslMechanism::ScramSha256 || cfg.sasl_mechanism == SaslMechanism::ScramSha512) ==> {
            &&& client_settings(cfg).contains_key("sasl.username"@)
            &&& client_settings(cfg)["sasl.username"@] == cfg.sasl_user@
            &&& client_settings(cfg).contains_key("sasl.password"@)
            &&& client_settings(cfg)["sasl.password"@] == cfg.sasl_password@
        },
        cfg.sasl && cfg.sasl_mechanism == SaslMechanism::Gssapi ==> {
            &&& cfg.kerberos_principal@.len() > 0 ==> client_settings(cfg).contains_key(
                "sasl.kerberos.principal"@,
            ) && client_settings(cfg)["sasl.kerberos.principal"@] == cfg.kerberos_principal@
            &&& cfg.kerberos_keytab@.len() > 0 ==> client_settings(cfg).contains_key(
                "sasl.kerberos.keytab"@,
            ) && client_settings(cfg)["sasl.kerberos.keytab"@] == cfg.kerberos_keytab@
            &&& cfg.kerberos_service@.len() > 0 ==> client_settings(cfg).contains_key(
                "sasl.kerberos.service.name"@,
            ) && client_settings(cfg)["sasl.kerberos.service.name"@] == cfg.kerberos_service@
        },
        cfg.sasl && cfg.sasl_mechanism == SaslMechanism::Oauthbearer ==> {
            &&& cfg.sasl_oauth_token@.len() > 0 ==> client_settings(cfg).contains_key(
                "sasl.oauthbearer.token"@,
            ) && client_settings(cfg)["sasl.oauthbearer.token"@] == cfg.sasl_oauth_token@
            &&& cfg.sasl_oauth_token@.len() == 0 && cfg.sasl_password@.len() > 0
                ==> client_settings(cfg).contains_key("sasl.oauthbearer.token"@) && client_settings(
                cfg,
            )["sasl.oauthbearer.token"@] == cfg.sasl_password@
        },
        cfg.sasl && cfg.sasl_mechanism == SaslMechanism::AwsMskIam && cfg.sasl_password@.len() > 0
            ==> client_settings(cfg).contains_key("sasl.oauthbearer.token"@) && client_settings(
            cfg,
        )["sasl.oauthbearer.token"@] == cfg.sasl_password@,
        !cfg.sasl ==> !client_settings(cfg).contains_key("sasl.username"@) && !client_settings(
            cfg,
        ).contains_key("sasl.password"@),
{
    lemma_setting_keys();
}

/// The value of `auto.offset.reset` for reading from the start or the end.
pub open spec fn offset_reset(from_beginning: bool) -> Seq<char> {
    if from_beginning {
        "earliest"@
    } else {
        "latest"@
    }
}

/// One topic of the cluster, as listed.
#[derive(Clone, Debug)]
pub struct TopicOverview {
    pub name: String,
    pub partitions: i32,
    pub replication: i32,
    pub internal: bool,
    pub error: String,
}

/// One partition of a topic.
#[derive(Clone, Debug)]
pub struct PartitionInfo {
    pub id: i32,
    pub leader: i32,
    pub replicas: String,
    pub isr: String,
    pub error: String,
}

/// One broker of the cluster.
#[derive(Clone, Debug)]
pub struct BrokerInfo {
    pub id: i32,
    pub host: String,
    pub port: i32,
}

/// One consumer group.
#[derive(Clone, Debug)]
pub struct GroupOverview {
    pub id: String,
    pub state: String,
    pub protocol: String,
}

/// One access-control entry.
#[derive(Clone, Debug)]
pub struct AclEntry {
    pub principal: String,
    pub host: String,
    pub operation: String,
    pub permission: String,
    pub resource_type: String,
    pub resource_name: String,
}

/// What to produce, and how often.
#[derive(Clone, Debug)]
pub struct ProduceRecord {
    pub topic: String,
    pub key: String,
    pub value: String,
    pub partition: Option<i32>,
    pub headers: Vec<(String, String)>,
    pub count: u32,
    pub compression: String,
}

/// What to consume.
#[derive(Clone, Debug)]
pub struct ConsumeRequest {
    pub topic: String,
    pub group: String,
    pub from_beginning: bool,
    pub max_messages: usize,
    pub commit: bool,
}

impl ProduceRecord {
    /// How many times the record is sent: its count, at least once.
    pub fn repetitions(&self) -> (n: u32)
        ensures
            n == if self.count == 0 {
                1
            } else {
                self.count
            },
    {
        if self.count == 0 {
            1
        } else {
            self.count
        }
    }
}

impl ConsumeRequest {
    /// How many records one poll gathers at most: the requested number,
    /// kept within 1 and 500.
    pub fn poll_cap(&self) -> (n: usize)
        ensures
            n == if self.max_messages < 1 {
                1
            } else if self.max_messages > 500 {
                500
            } else {
                self.max_messages as int
            },
    {
        if self.max_messages < 1 {
            1
        } else if self.max_messages > 500 {
            500
        } else {
            self.max_messages
        }
    }
}

/// How many times a record is sent: its count, at least once.
pub open spec fn repetitions_of(rec: ProduceRecord) -> nat {
    if rec.count == 0 {
        1
    } else {
        rec.count as nat
    }
}

/// How many records one poll gathers at most: the requested number, kept
/// within 1 and 500.
pub open spec fn poll_limit(req: ConsumeRequest) -> nat {
    if req.max_messages < 1 {
        1
    } else if req.max_messages > 500 {
        500
    } else {
        req.max_messages as nat
    }
}

/// One record as the producer sends it.
#[derive(Debug)]
pub struct OutgoingRecord {
    pub topic: String,
    pub key: String,
    pub value: String,
    pub headers: Vec<(String, String)>,
    pub partition: Option<i32>,
}

/// The record sent for a produce request: its topic, key, value, headers in
/// order, and partition where one is given.
pub open spec fn sends(o: OutgoingRecord, rec: ProduceRecord) -> bool {
    &&& o.topic == rec.topic
    &&& o.key == rec.key
    &&& o.value == rec.value
    &&& o.headers@ == rec.headers@
    &&& o.partition == rec.partition
}

fn copy_headers(h: &Vec<(String, String)>) -> (r: Vec<(String, String)>)
    ensures
        r@ == h@,
{
    let mut r: Vec<(String, String)> = Vec::new();
    let mut i: usize = 0;
    while i < h.len()
        invariant
            i <= h@.len(),
            r@ == h@.subrange(0, i as int),
        decreases h@.len() - i,
    {
        let (k, v) = &h[i];
        r.push((k.clone(), v.clone()));
        proof {
            assert(r@ =~= h@.subrange(0, i + 1));
        }
        i = i + 1;
    }
    assert(h@.subrange(0, h@.len() as int) =~= h@);
    r
}

/// The records of a produce request, handed out one by one, with the
/// history of those handed out.
pub struct ProduceRun {
    rec: ProduceRecord,
    left: u32,
    sent: Ghost<Seq<OutgoingRecord>>,
}

impl View for ProduceRun {
    type V = Seq<OutgoingRecord>;

    /// The records handed out so far.
    closed spec fn view(&self) -> Seq<OutgoingRecord> {
        self.sent@
    }
}

impl ProduceRun {
    /// The request being produced.
    pub closed spec fn request(&self) -> ProduceRecord {
        self.rec
    }

    /// Each record handed out is the request's, and those handed out and
    /// those left make up its repetitions.
    pub closed spec fn wf(&self) -> bool {
        &&& self.sent@.len() + self.left == repetitions_of(self.rec)
        &&& forall|i: int| 0 <= i < self.sent@.len() ==> sends(#[trigger] self.sent@[i], self.rec)
    }

    /// A run of a produce request that has handed out nothing.
    pub fn new(rec: ProduceRecord) -> (r: ProduceRun)
        ensures
            r.wf(),
            r.request() == rec,
            r@ == Seq::<OutgoingRecord>::empty(),
    {
        let left = rec.repetitions();
        ProduceRun { rec, left, sent: Ghost(Seq::empty()) }
    }

    /// The next record to send, until the request's repetitions are all
    /// handed out.
    pub fn next(&mut self) -> (r: Option<OutgoingRecord>)
        requires
            old(self).wf(),
        ensures
            final(self).wf(),
            final(self).request() == old(self).request(),
            match r {
                Some(o) => sends(o, old(self).request()) && final(self)@ == old(self)@.push(o),
                None => final(self)@ == old(self)@ && old(self)@.len() == repetitions_of(old(self).request()),
            },
    {
        if self.left == 0 {
            return None;
        }
        let o = OutgoingRecord {
            topic: self.rec.topic.clone(),
            key: self.rec.key.clone(),
            value: self.rec.value.clone(),
            headers: copy_headers(&self.rec.headers),
            partition: self.rec.partition,
        };
        self.left = self.left - 1;
        proof {
            self.sent = Ghost(self.sent@.push(o));
            assert forall|i: int| 0 <= i < self.sent@.len() implies sends(#[trigger] self.sent@[i], self.rec) by {
                if i < self.sent@.len() - 1 {
                    assert(self.sent@[i] == old(self).sent@[i]);
                }
            }
        }
        Some(o)
    }
}

/// A produce request hands out at most its repetitions, each of them its
/// own record; once `next` gives none, exactly `max(count, 1)` were handed
/// out.
pub proof fn lemma_produce_sends_copies(run: &ProduceRun)
    requires
        run.wf(),
    ensures
        run@.len() <= repetitions_of(run.request()),
        forall|i: int| 0 <= i < run@.len() ==> sends(#[trigger] run@[i], run.request()),
{
}

/// The records a one-off poll has gathered, never more than its limit.
pub struct Gathered {
    limit: usize,
    records: Vec<ConsumedRecord>,
}

impl View for Gathered {
    type V = Seq<ConsumedRecord>;

    /// The records gathered, in poll order.
    closed spec fn view(&self) -> Seq<ConsumedRecord> {
        self.records@
    }
}

impl Gathered {
    /// How many records the poll may gather.
    pub closed spec fn limit(&self) -> nat {
        self.limit as nat
    }

    /// No more records than the limit.
    pub closed spec fn wf(&self) -> bool {
        self.records@.len() <= self.limit
    }

    /// Nothing gathered yet for a request.
    pub fn new(req: &ConsumeRequest) -> (g: Gathered)
        ensures
            g.wf(),
            g@ == Seq::<ConsumedRecord>::empty(),
            g.limit() == poll_limit(*req),
    {
        Gathered { limit: req.poll_cap(), records: Vec::new() }
    }

    /// Whether the poll goes on (while time is left): below its limit.
    pub fn wants_more(&self) -> (r: bool)
        ensures
            r == (self@.len() < self.limit()),
    {
        self.records.len() < self.limit
    }

    /// Takes a polled record while below the limit; returns whether it did.
    pub fn add(&mut self, rec: ConsumedRecord) -> (taken: bool)
        requires
            old(self).wf(),
        ensures
            final(self).wf(),
            final(self).limit() == old(self).limit(),
            taken == (old(self)@.len() < old(self).limit()),
            taken ==> final(self)@ == old(self)@.push(rec),
            !taken ==> final(self)@ == old(self)@,
    {
        if self.records.len() < self.limit {
            self.records.push(rec);
            true
        } else {
            false
        }
    }

    /// The records gathered: never more than the request's limit.
    pub fn records(self) -> (r: Vec<ConsumedRecord>)
        requires
            self.wf(),
        ensures
            r@ == self@,
            r@.len() <= self.limit(),
    {
        self.records
    }
}

/// The configuration of a one-off poll: the cluster's settings, the
/// requested group where one is given (subscribing needs one), reading from
/// the start or the end.
pub fn consume_once_config(cfg: &ConnectionConfig, req: &ConsumeRequest) -> (r: Result<ClientConfig, crate::error::Error>)
    ensures
        r matches Ok(c) && config_entries(c) == put_if(
            client_settings(*cfg),
            req.group@.len() > 0,
            "group.id"@,
            req.group@,
        ).insert("auto.offset.reset"@, offset_reset(req.from_beginning)),
{
    let mut c = match build_client_config(cfg) {
        Ok(c) => c,
        Err(e) => return Err(e),
    };
    if !req.group.as_str().is_empty() {
        config_set(&mut c, "group.id", req.group.as_str());
    }
    config_set(&mut c, "auto.offset.reset", if req.from_beginning { "earliest" } else { "latest" });
    Ok(c)
}

/// The group of a stream: the requested one, or `kaforge-` and a fresh version 7 UUID.
pub open spec fn is_stream_group(req: ConsumeRequest, g: Seq<char>) -> bool {
    if req.group@.len() > 0 {
        g == req.group@
    } else {
        g.len() == 44 && g.subrange(0, 8) == "kaforge-"@ && uuid_v7_text(g.subrange(8, 44))
    }
}

/// The configuration of a stream: the cluster's settings, its group, where
/// it starts, and whether offsets are committed automatically.
pub fn stream_config(cfg: &ConnectionConfig, req: &ConsumeRequest) -> (r: Result<ClientConfig, crate::error::Error>)
    ensures
        r matches Ok(c) && exists|g: Seq<char>|
            is_stream_group(*req, g) && config_entries(c) == client_settings(*cfg).insert(
                "group.id"@,
                g,
            ).insert("auto.offset.reset"@, offset_reset(req.from_beginning)).insert(
                "enable.auto.commit"@,
                if req.commit {
                    "true"@
                } else {
                    "false"@
                },
            ),
{
    let mut c = match build_client_config(cfg) {
        Ok(c) => c,
        Err(e) => return Err(e),
    };
    let ghost g;
    if !req.group.as_str().is_empty() {
        config_set(&mut c, "group.id", req.group.as_str());
        proof {
            g = req.group@;
        }
    } else {
        let mut name = to_owned_string("kaforge-");
        let id = new_uuid_v7();
        name.append(id.as_str());
        proof {
            reveal_strlit("kaforge-");
            assert(name@.subrange(0, 8) =~= "kaforge-"@);
            assert(name@.subrange(8, 44) =~= id@);
            g = name@;
        }
        config_set(&mut c, "group.id", name.as_str());
    }
    config_set(&mut c, "auto.offset.reset", if req.from_beginning { "earliest" } else { "latest" });
    config_set(&mut c, "enable.auto.commit", if req.commit { "true" } else { "false" });
    assert(is_stream_group(*req, g));
    Ok(c)
}

/// The configuration that commits a group's offsets.
pub fn reset_offsets_config(cfg: &ConnectionConfig, group: &str) -> (r: Result<ClientConfig, crate::error::Error>)
    ensures
        r matches Ok(c) && config_entries(c) == client_settings(*cfg).insert("group.id"@, group@),
{
    let mut c = match build_client_config(cfg) {
        Ok(c) => c,
        Err(e) => return Err(e),
    };
    config_set(&mut c, "group.id", group);
    Ok(c)
}

/// Integers written in decimal and separated by commas.
pub open spec fn join_ints(s: Seq<i32>) -> Seq<char>
    decreases s.len(),
{
    if s.len() == 0 {
        Seq::empty()
    } else if s.len() == 1 {
        int_text(s[0] as int)
    } else {
        join_ints(s.drop_last()) + seq![','] + int_text(s.last() as int)
    }
}

/// Broker ids joined by commas, as the partition listing shows them.
pub fn join_ids(ids: &Vec<i32>) -> (r: String)
    ensures
        r@ == join_ints(ids@),
{
    let mut out = String::new();
    let mut i: usize = 0;
    while i < ids.len()
        invariant
            i <= ids.len(),
            out@ == join_ints(ids@.subrange(0, i as int)),
        decreases ids.len() - i,
    {
        let ghost before = out@;
        if i > 0 {
            crate::text::push_char(&mut out, ',');
        }
        push_int(&mut out, ids[i] as i64);
        proof {
            let p = ids@.subrange(0, i + 1);
            assert(p.drop_last() =~= ids@.subrange(0, i as int));
            if i == 0 {
                assert(out@ =~= join_ints(p));
            } else {
                assert(out@ =~= join_ints(p));
            }
        }
        i = i + 1;
    }
    assert(ids@.subrange(0, ids.len() as int) =~= ids@);
    out
}

/// The text of an optional error, empty where there is none.
pub open spec fn error_text(e: Option<String>) -> Seq<char> {
    match e {
        Some(t) => t@,
        None => Seq::empty(),
    }
}

fn unwrap_text(e: Option<String>) -> (r: String)
    ensures
        r@ == error_text(e),
{
    match e {
        Some(t) => t,
        None => String::new(),
    }
}

/// A topic as the listing shows it, from its name, the replica count of each
/// partition and the text of its error: the number of partitions, the
/// replica count of the first partition (0 without partitions), and whether
/// the name starts with `_`.
pub fn topic_overview(name: String, partition_replicas: &Vec<usize>, error: Option<String>) -> (t: TopicOverview)
    ensures
        t.name == name,
        t.partitions == partition_replicas.len() as i32,
        t.replication == if partition_replicas.len() == 0 {
            0
        } else {
            partition_replicas[0] as i32
        },
        t.internal == (name@.len() > 0 && name@[0] == '_'),
        t.error@ == error_text(error),
{
    let replication = if partition_replicas.len() == 0 {
        0
    } else {
        partition_replicas[0] as i32
    };
    let internal = name.as_str().unicode_len() > 0 && name.as_str().get_char(0) == '_';
    TopicOverview {
        name,
        partitions: partition_replicas.len() as i32,
        replication,
        internal,
        error: unwrap_text(error),
    }
}

/// A partition as the listing shows it.
pub fn partition_info(id: i32, leader: i32, replicas: &Vec<i32>, isr: &Vec<i32>, error: Option<String>) -> (p: PartitionInfo)
    ensures
        p.id == id,
        p.leader == leader,
        p.replicas@ == join_ints(replicas@),
        p.isr@ == join_ints(isr@),
        p.error@ == error_text(error),
{
    PartitionInfo {
        id,
        leader,
        replicas: join_ids(replicas),
        isr: join_ids(isr),
        error: unwrap_text(error),
    }
}

/// A consumer group as the listing shows it: its protocol followed by the
/// number of members in brackets.
pub fn group_overview(name: String, state: String, protocol: &str, members: usize) -> (g: GroupOverview)
    ensures
        g.id == name,
        g.state == state,
        g.protocol@ == protocol@ + " ("@ + int_text(members as int) + ")"@,
{
    let mut p = to_owned_string(protocol);
    p.append(" (");
    push_decimal(&mut p, members as u64);
    p.append(")");
    GroupOverview { id: name, state, protocol: p }
}

/// The offset that resetting a group commits for a partition: its low
/// watermark to go back to the start, its high one to skip to the end.
pub fn reset_offset(low: i64, high: i64, to_beginning: bool) -> (r: i64)
    ensures
        r == if to_beginning {
            low
        } else {
            high
        },
{
    if to_beginning {
        low
    } else {
        high
    }
}

/// The offsets that resetting a group commits, from each partition's id
/// and what fetching its watermarks gave, in order: the first failure is
/// the error; otherwise each partition gets its low or high watermark.
pub open spec fn reset_plan(
    parts: Seq<(i32, Result<(i64, i64), String>)>,
    to_beginning: bool,
) -> Result<Seq<(i32, i64)>, Seq<char>>
    decreases parts.len(),
{
    if parts.len() == 0 {
        Ok(Seq::empty())
    } else {
        match reset_plan(parts.drop_last(), to_beginning) {
            Err(e) => Err(e),
            Ok(v) => match parts.last().1 {
                Err(e) => Err(e@),
                Ok((low, high)) => Ok(v.push((parts.last().0, if to_beginning {
                    low
                } else {
                    high
                }))),
            },
        }
    }
}

/// The offsets to commit when resetting a group, as `reset_plan` says.
pub fn reset_targets(parts: Vec<(i32, Result<(i64, i64), String>)>, to_beginning: bool) -> (r: Result<Vec<(i32, i64)>, String>)
    ensures
        r matches Ok(v) ==> reset_plan(parts@, to_beginning) == Ok::<Seq<(i32, i64)>, Seq<char>>(v@),
        r matches Err(e) ==> reset_plan(parts@, to_beginning) == Err::<Seq<(i32, i64)>, Seq<char>>(e@),
{
    let ghost orig = parts@;
    let mut rest = parts;
    let n = rest.len();
    let mut out: Vec<(i32, i64)> = Vec::new();
    let mut i: usize = 0;
    while i < n
        invariant
            n == orig.len(),
            orig == parts@,
            i <= n,
            rest@ == orig.subrange(i as int, n as int),
            reset_plan(orig.subrange(0, i as int), to_beginning) == Ok::<Seq<(i32, i64)>, Seq<char>>(out@),
        decreases n - i,
    {
        let (id, marks) = rest.remove(0);
        assert((id, marks) == orig[i as int]);
        proof {
            let q = orig.subrange(0, i + 1);
            assert(q.drop_last() =~= orig.subrange(0, i as int));
            assert(rest@ =~= orig.subrange(i + 1, n as int));
        }
        match marks {
            Err(e) => {
                proof {
                    lemma_reset_plan_err(orig, i as int, to_beginning);
                }
                return Err(e);
            },
            Ok((low, high)) => {
                out.push((id, reset_offset(low, high, to_beginning)));
            },
        }
        i = i + 1;
    }
    assert(orig.subrange(0, n as int) =~= orig);
    Ok(out)
}

proof fn lemma_reset_plan_err(parts: Seq<(i32, Result<(i64, i64), String>)>, i: int, to_beginning: bool)
    requires
        0 <= i < parts.len(),
        reset_plan(parts.subrange(0, i), to_beginning) is Ok,
        parts[i].1 is Err,
    ensures
        reset_plan(parts, to_beginning) == Err::<Seq<(i32, i64)>, Seq<char>>(parts[i].1->Err_0@),
    decreases parts.len() - i,
{
    let q = parts.subrange(0, i + 1);
    assert(q.drop_last() =~= parts.subrange(0, i));
    if i + 1 < parts.len() {
        lemma_reset_plan_err_extends(parts, i + 1, to_beginning, parts[i].1->Err_0@);
    } else {
        assert(q =~= parts);
    }
}

proof fn lemma_reset_plan_err_extends(
    parts: Seq<(i32, Result<(i64, i64), String>)>,
    k: int,
    to_beginning: bool,
    e: Seq<char>,
)
    requires
        0 <= k <= parts.len(),
        reset_plan(parts.subrange(0, k), to_beginning) == Err::<Seq<(i32, i64)>, Seq<char>>(e),
    ensures
        reset_plan(parts, to_beginning) == Err::<Seq<(i32, i64)>, Seq<char>>(e),
    decreases parts.len() - k,
{
    if k < parts.len() {
        let q = parts.subrange(0, k + 1);
        assert(q.drop_last() =~= parts.subrange(0, k));
        lemma_reset_plan_err_extends(parts, k + 1, to_beginning, e);
    } else {
        assert(parts.subrange(0, k) =~= parts);
    }
}

/// The broker whose configuration holds client quotas: the first one
/// listed; without brokers the error `no brokers`.
pub fn quota_broker(brokers: &Vec<BrokerInfo>) -> (r: Result<i32, crate::error::Error>)
    ensures
        brokers@.len() > 0 <==> r is Ok,
        r matches Ok(id) ==> id == brokers@[0].id,
        r matches Err(e) ==> e matches crate::error::Error::Msg(t) && t@ == "no brokers"@,
{
    if brokers.len() == 0 {
        Err(crate::error::Error::msg(to_owned_string("no brokers")))
    } else {
        Ok(brokers[0].id)
    }
}

/// The error for a topic that the cluster does not know.
pub fn topic_not_found(topic: &str) -> (e: crate::error::Error)
    ensures
        e matches crate::error::Error::Msg(t) && t@ == "topic "@ + topic@ + " not found"@,
{
    let mut t = to_owned_string("topic ");
    t.append(topic);
    t.append(" not found");
    crate::error::Error::msg(t)
}

/// The error that an admin request reports for one of its names.
pub fn named_error(name: &str, detail: &str) -> (e: crate::error::Error)
    ensures
        e matches crate::error::Error::Msg(t) && t@ == name@ + ": "@ + detail@,
{
    let mut t = to_owned_string(name);
    t.append(": ");
    t.append(detail);
    crate::error::Error::msg(t)
}

/// The error that the ACL operations report.
pub fn acls_unsupported() -> (e: crate::error::Error)
    ensures
        e matches crate::error::Error::Msg(t) && t@
            == "ACL describe/create uses the Kafka Admin API; denied or unavailable on this cluster"@,
{
    crate::error::Error::msg(to_owned_string("ACL describe/create uses the Kafka Admin API; denied or unavailable on this cluster"))
}

/// Where log directories, quotas and reassignments are handled.
pub fn log_dirs_hint() -> (r: String)
    ensures
        r@ == "LogDirs, quotas, and replica reassignment are issued via AdminClient where the broker allows it."@,
{
    to_owned_string("LogDirs, quotas, and replica reassignment are issued via AdminClient where the broker allows it.")
}

/// The error that describing log directories reports.
pub fn log_dirs_unavailable() -> (e: crate::error::Error)
    ensures
        e matches crate::error::Error::Msg(t) && t@
            == "DescribeLogDirs is not exposed by this rdkafka build; use broker metrics or kafka-log-dirs CLI"@,
{
    crate::error::Error::msg(to_owned_string("DescribeLogDirs is not exposed by this rdkafka build; use broker metrics or kafka-log-dirs CLI"))
}

/// The error that a partition reassignment reports.
pub fn reassign_unavailable() -> (e: crate::error::Error)
    ensures
        e matches crate::error::Error::Msg(t) && t@ == "AlterPartitionReassignments is not exposed by this rdkafka build"@,
{
    crate::error::Error::msg(to_owned_string("AlterPartitionReassignments is not exposed by this rdkafka build"))
}

} // verus!
