//! The connection form: what saving it makes of a cluster's settings.
use vstd::prelude::*;
use crate::config::{
    ConnectionConfig, SaslMechanism, display_name_of, uuid_v7_text, lemma_mechanism_name_roundtrip,
    mechanism_from_king, other_fields_empty, rdkafka_mechanism_name,
};
use crate::connections::{lookup, position_of_id, lemma_lookup_at};
use crate::error::Error;
use crate::text::{is_blank, is_blank_str, to_owned_string};

verus! {

/// What the connection form holds.
#[derive(Clone, Debug)]
pub struct ConnectionForm {
    pub name: String,
    pub bootstrap: String,
    pub sasl_user: String,
    pub sasl_password: String,
    pub sr_url: String,
    pub mechanism: String,
    pub kerberos: String,
    pub msk_region: String,
    pub webhook: String,
    pub ssh_host: String,
    pub ssh_user: String,
    pub tls: bool,
    pub ssh: bool,
}

/// The lag threshold that a monitor webhook gets where none is set.
pub open spec fn default_lag_threshold() -> u64 {
    10000
}

/// The settings that saving the form makes of `base`: the form's fields
/// copied in; SASL on where a user is given, and always for GSSAPI, OAuth
/// bearer and AWS MSK IAM; the lag threshold 10000 where a webhook is given
/// and no threshold was set; other settings kept.
pub open spec fn form_applied(c: ConnectionConfig, base: ConnectionConfig, form: ConnectionForm) -> bool {
    let mech = mechanism_from_king(form.mechanism@);
    &&& c == ConnectionConfig {
        name: c.name,
        bootstrap_servers: c.bootstrap_servers,
        sasl_user: c.sasl_user,
        sasl_password: c.sasl_password,
        sasl: c.sasl,
        sr: c.sr,
        tls: c.tls,
        ssh: c.ssh,
        ssh_host: c.ssh_host,
        ssh_user: c.ssh_user,
        kerberos_principal: c.kerberos_principal,
        msk_region: c.msk_region,
        monitor_webhook: c.monitor_webhook,
        monitor_lag_threshold: c.monitor_lag_threshold,
        sasl_mechanism: c.sasl_mechanism,
        ..base
    }
    &&& c.name == form.name
    &&& c.bootstrap_servers == form.bootstrap
    &&& c.sasl_user == form.sasl_user
    &&& c.sasl_password == form.sasl_password
    &&& c.sr.url == form.sr_url
    &&& c.sr.user == base.sr.user && c.sr.password == base.sr.password && c.sr.skip_tls
        == base.sr.skip_tls
    &&& c.tls == form.tls
    &&& c.ssh == form.ssh
    &&& c.ssh_host == form.ssh_host
    &&& c.ssh_user == form.ssh_user
    &&& c.kerberos_principal == form.kerberos
    &&& c.msk_region == form.msk_region
    &&& c.monitor_webhook == form.webhook
    &&& c.monitor_lag_threshold == if base.monitor_lag_threshold == 0 && form.webhook@.len() > 0 {
        default_lag_threshold()
    } else {
        base.monitor_lag_threshold
    }
    &&& c.sasl_mechanism == mech
    &&& c.sasl == (form.sasl_user@.len() > 0 || mech == SaslMechanism::Gssapi || mech
        == SaslMechanism::Oauthbearer || mech == SaslMechanism::AwsMskIam)
}

/// Saving the form turns SASL on exactly where it is needed: always for a
/// mechanism that mints or fetches its own credentials (AWS MSK IAM, GSSAPI,
/// OAuth bearer), and for PLAIN or SCRAM only where a user is given. A
/// webhook without a threshold gets the default threshold 10000.
pub proof fn lemma_form_sasl(c: ConnectionConfig, base: ConnectionConfig, form: ConnectionForm)
    requires
        form_applied(c, base, form),
    ensures
        c.sasl_mechanism == mechanism_from_king(form.mechanism@),
        c.sasl_mechanism == SaslMechanism::AwsMskIam ==> c.sasl,
        c.sasl_mechanism == SaslMechanism::Gssapi ==> c.sasl,
        c.sasl_mechanism == SaslMechanism::Oauthbearer ==> c.sasl,
        form.sasl_user@.len() > 0 ==> c.sasl,
        form.sasl_user@.len() == 0 && (c.sasl_mechanism == SaslMechanism::Plain || c.sasl_mechanism
            == SaslMechanism::ScramSha256 || c.sasl_mechanism == SaslMechanism::ScramSha512) ==> !c.sasl,
        base.monitor_lag_threshold == 0 && form.webhook@.len() > 0 ==> c.monitor_lag_threshold == 10000,
        base.monitor_lag_threshold != 0 ==> c.monitor_lag_threshold == base.monitor_lag_threshold,
        c.name == form.name && c.bootstrap_servers == form.bootstrap && c.sasl_user == form.sasl_user
            && c.sasl_password == form.sasl_password,
        c.id == base.id,
{
}

/// The Kafka-King names of AWS MSK IAM, in any ASCII case, read as that
/// mechanism, and so does its librdkafka-style name with hyphens.
pub proof fn lemma_msk_mechanism_names(name: Seq<char>)
    ensures
        crate::text::to_ascii_upper(name) == "AWS_MSK_IAM"@ ==> mechanism_from_king(name)
            == SaslMechanism::AwsMskIam,
        crate::text::to_ascii_upper(name) == "AWS-MSK-IAM"@ ==> mechanism_from_king(name)
            == SaslMechanism::AwsMskIam,
{
    reveal_strlit("AWS_MSK_IAM");
    reveal_strlit("AWS-MSK-IAM");
    reveal_strlit("SCRAM-SHA-256");
    reveal_strlit("SCRAM-SHA-512");
    reveal_strlit("GSSAPI");
    reveal_strlit("OAUTHBEARER");
    assert("AWS_MSK_IAM"@[0] != "SCRAM-SHA-256"@[0]);
    assert("AWS-MSK-IAM"@[0] != "SCRAM-SHA-256"@[0]);
}

/// Saves the form into `base`; blank bootstrap servers are refused.
pub fn apply_connection_form(base: ConnectionConfig, form: ConnectionForm) -> (r: Result<ConnectionConfig, Error>)
    ensures
        is_blank(form.bootstrap@) <==> r is Err,
        r matches Err(Error::Msg(t)) ==> t@ == "bootstrap servers required"@,
        r is Err ==> r matches Err(Error::Msg(_)),
        r matches Ok(c) ==> form_applied(c, base, form),
        r matches Ok(c) ==> c.sasl_mechanism == mechanism_from_king(form.mechanism@),
        r matches Ok(c) ==> ((c.sasl_mechanism == SaslMechanism::AwsMskIam || c.sasl_mechanism
            == SaslMechanism::Gssapi || c.sasl_mechanism == SaslMechanism::Oauthbearer) ==> c.sasl),
        r matches Ok(c) ==> (form.sasl_user@.len() > 0 ==> c.sasl),
        r matches Ok(c) ==> (form.sasl_user@.len() == 0 && (c.sasl_mechanism == SaslMechanism::Plain
            || c.sasl_mechanism == SaslMechanism::ScramSha256 || c.sasl_mechanism
            == SaslMechanism::ScramSha512) ==> !c.sasl),
{
    let mut cfg = base;
    let blank = is_blank_str(form.bootstrap.as_str());
    let has_user = !form.sasl_user.as_str().is_empty();
    let has_webhook = !form.webhook.as_str().is_empty();
    let mech = SaslMechanism::from_king(form.mechanism.as_str());
    cfg.name = form.name;
    cfg.bootstrap_servers = form.bootstrap;
    cfg.sasl_user = form.sasl_user;
    cfg.sasl_password = form.sasl_password;
    cfg.sasl = has_user;
    cfg.sr.url = form.sr_url;
    cfg.tls = form.tls;
    cfg.ssh = form.ssh;
    cfg.ssh_host = form.ssh_host;
    cfg.ssh_user = form.ssh_user;
    cfg.kerberos_principal = form.kerberos;
    cfg.msk_region = form.msk_region;
    cfg.monitor_webhook = form.webhook;
    if cfg.monitor_lag_threshold == 0 && has_webhook {
        cfg.monitor_lag_threshold = 10000;
    }
    cfg.sasl_mechanism = mech;
    if mech == SaslMechanism::Gssapi || mech == SaslMechanism::Oauthbearer || mech
        == SaslMechanism::AwsMskIam {
        cfg.sasl = true;
    }
    if blank {
        return Err(Error::msg(to_owned_string("bootstrap servers required")));
    }
    Ok(cfg)
}

/// The form as selecting a saved cluster fills it: its fields, with the
/// mechanism under its librdkafka name.
pub open spec fn form_shows(form: ConnectionForm, c: ConnectionConfig) -> bool {
    &&& form.name == c.name
    &&& form.bootstrap == c.bootstrap_servers
    &&& form.sasl_user == c.sasl_user
    &&& form.sasl_password == c.sasl_password
    &&& form.sr_url == c.sr.url
    &&& form.mechanism@ == rdkafka_mechanism_name(c.sasl_mechanism)
    &&& form.kerberos == c.kerberos_principal
    &&& form.msk_region == c.msk_region
    &&& form.webhook == c.monitor_webhook
    &&& form.ssh_host == c.ssh_host
    &&& form.ssh_user == c.ssh_user
    &&& form.tls == c.tls
    &&& form.ssh == c.ssh
}

impl ConnectionForm {
    /// The form filled from a saved cluster.
    pub fn of_config(c: &ConnectionConfig) -> (form: ConnectionForm)
        ensures
            form_shows(form, *c),
    {
        ConnectionForm {
            name: c.name.clone(),
            bootstrap: c.bootstrap_servers.clone(),
            sasl_user: c.sasl_user.clone(),
            sasl_password: c.sasl_password.clone(),
            sr_url: c.sr.url.clone(),
            mechanism: to_owned_string(c.sasl_mechanism.as_rdkafka()),
            kerberos: c.kerberos_principal.clone(),
            msk_region: c.msk_region.clone(),
            webhook: c.monitor_webhook.clone(),
            ssh_host: c.ssh_host.clone(),
            ssh_user: c.ssh_user.clone(),
            tls: c.tls,
            ssh: c.ssh,
        }
    }
}

/// How a saved cluster is listed in the picker: its display name, two
/// spaces, its bootstrap servers.
pub fn saved_label(c: &ConnectionConfig) -> (r: String)
    ensures
        r@ == display_name_of(*c) + "  "@ + c.bootstrap_servers@,
{
    let mut r = to_owned_string(c.display_name());
    r.append("  ");
    r.append(c.bootstrap_servers.as_str());
    r
}

/// Saving the form just as selecting a saved cluster filled it keeps that
/// cluster's settings unchanged, where they are consistent with what saving
/// derives: bootstrap servers given, the SASL flag as the user and
/// mechanism imply it, a lag threshold wherever a webhook is set, and a
/// mechanism other than AWS MSK IAM (whose form name reads back as OAuth
/// bearer).
pub proof fn lemma_unchanged_form_keeps_settings(c: ConnectionConfig, form: ConnectionForm)
    requires
        form_shows(form, c),
        !is_blank(c.bootstrap_servers@),
        c.sasl_mechanism != SaslMechanism::AwsMskIam,
        c.sasl == (c.sasl_user@.len() > 0 || c.sasl_mechanism == SaslMechanism::Gssapi
            || c.sasl_mechanism == SaslMechanism::Oauthbearer),
        c.monitor_webhook@.len() > 0 ==> c.monitor_lag_threshold != 0,
    ensures
        !is_blank(form.bootstrap@),
        forall|r: ConnectionConfig| form_applied(r, c, form) <==> r == c,
{
    lemma_mechanism_name_roundtrip(c.sasl_mechanism);
    assert forall|r: ConnectionConfig| form_applied(r, c, form) implies r == c by {
        assert(r.sr == c.sr);
    }
}

/// The settings that the form edits: the selected saved cluster where it is
/// found, otherwise a blank one.
pub fn form_base(saved: &Vec<ConnectionConfig>, selected: Option<&str>) -> (r: ConnectionConfig)
    ensures
        match selected {
            Some(id) => match lookup(saved@, id@) {
                Some(c) => r == c,
                None => uuid_v7_text(r.id@) && r.ssh_port == 22 && r.kerberos_service@ == "kafka"@
                    && other_fields_empty(r),
            },
            None => uuid_v7_text(r.id@) && r.ssh_port == 22 && r.kerberos_service@ == "kafka"@
                && other_fields_empty(r),
        },
{
    match selected {
        Some(id) => match position_of_id(saved, id) {
            Some(k) => {
                proof {
                    lemma_lookup_at(saved@, id@, k as int);
                }
                saved[k].copy()
            },
            None => ConnectionConfig::new_blank(),
        },
        None => ConnectionConfig::new_blank(),
    }
}

} // verus!
