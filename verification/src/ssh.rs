//! What an SSH local forward connects to, read from a cluster's settings.
use vstd::prelude::*;
use crate::config::ConnectionConfig;
use crate::error::Error;
use crate::text::{
    decimal, is_blank, is_blank_str, parse_in_range, parse_int, push_decimal, rsplit_once,
    rsplit_once_str, split_once, split_once_str, to_owned_string, trim, trim_str,
};

verus! {

/// How the SSH session authenticates.
#[derive(Clone, Debug)]
pub enum SshAuth {
    /// With the private key in this file.
    KeyFile(String),
    /// With the password.
    Password(String),
}

/// Everything that the forwarding thread needs.
#[derive(Clone, Debug)]
pub struct SshForwardPlan {
    pub ssh_host: String,
    pub ssh_port: u16,
    pub ssh_user: String,
    pub auth: SshAuth,
    pub remote_host: String,
    pub remote_port: u16,
}

/// `host:port` read as a host and a port: the part after the last `:` where
/// it is a valid port number, otherwise the whole text with port 9092.
pub open spec fn host_port(input: Seq<char>) -> (Seq<char>, u16) {
    match rsplit_once(input, ':') {
        Some((h, p)) => match parse_in_range(p, false, 0, 65535) {
            Some(v) => (h, v as u16),
            None => (input, 9092),
        },
        None => (input, 9092),
    }
}

/// The first entry of a comma-separated list, trimmed.
pub open spec fn first_entry(list: Seq<char>) -> Seq<char> {
    match split_once(list, ',') {
        Some((a, _)) => trim(a),
        None => trim(list),
    }
}

/// Splits `host:port`; without a valid port after the last `:` the whole
/// text is the host and the port is 9092.
pub fn split_host_port(input: &str) -> (r: (String, u16))
    ensures
        r.0@ == host_port(input@).0,
        r.1 == host_port(input@).1,
{
    match rsplit_once_str(input, ':') {
        Some((h, p)) => match parse_int(p, false, 0, 65535) {
            Some(v) => (to_owned_string(h), v as u16),
            None => (to_owned_string(input), 9092),
        },
        None => (to_owned_string(input), 9092),
    }
}

/// The first broker of a bootstrap list: its text up to the first comma,
/// trimmed.
pub fn first_broker(bootstrap: &str) -> (r: String)
    ensures
        r@ == first_entry(bootstrap@),
{
    match split_once_str(bootstrap, ',') {
        Some((a, _)) => to_owned_string(trim_str(a)),
        None => to_owned_string(trim_str(bootstrap)),
    }
}

/// The SSH port: the configured one, 22 where it is zero.
pub open spec fn effective_ssh_port(p: u16) -> u16 {
    if p == 0 {
        22
    } else {
        p
    }
}

/// What a forward for `cfg` connects to: the SSH endpoint, the way it
/// authenticates (a key file where its trimmed path is not blank, the
/// password otherwise) and the first bootstrap broker. A blank SSH host or
/// user is refused.
pub fn plan_ssh_forward(cfg: &ConnectionConfig) -> (r: Result<SshForwardPlan, Error>)
    ensures
        (is_blank(cfg.ssh_host@) || is_blank(cfg.ssh_user@)) <==> r is Err,
        r matches Err(Error::Msg(t)) ==> t@ == "SSH host and user are required"@,
        r matches Ok(plan) ==> {
            &&& plan.ssh_host == cfg.ssh_host
            &&& plan.ssh_port == effective_ssh_port(cfg.ssh_port)
            &&& plan.ssh_user == cfg.ssh_user
            &&& (if is_blank(cfg.ssh_key_file@) {
                plan.auth matches SshAuth::Password(pw) && pw == cfg.ssh_password
            } else {
                plan.auth matches SshAuth::KeyFile(k) && k@ == trim(cfg.ssh_key_file@)
            })
            &&& plan.remote_host@ == host_port(first_entry(cfg.bootstrap_servers@)).0
            &&& plan.remote_port == host_port(first_entry(cfg.bootstrap_servers@)).1
        },
        r is Err ==> r matches Err(Error::Msg(_)),
{
    if is_blank_str(cfg.ssh_host.as_str()) || is_blank_str(cfg.ssh_user.as_str()) {
        return Err(Error::msg(to_owned_string("SSH host and user are required")));
    }
    let ssh_port = if cfg.ssh_port == 0 {
        22
    } else {
        cfg.ssh_port
    };
    let auth = if is_blank_str(cfg.ssh_key_file.as_str()) {
        SshAuth::Password(cfg.ssh_password.clone())
    } else {
        SshAuth::KeyFile(to_owned_string(trim_str(cfg.ssh_key_file.as_str())))
    };
    let first = first_broker(cfg.bootstrap_servers.as_str());
    let (remote_host, remote_port) = split_host_port(first.as_str());
    Ok(
        SshForwardPlan {
            ssh_host: cfg.ssh_host.clone(),
            ssh_port,
            ssh_user: cfg.ssh_user.clone(),
            auth,
            remote_host,
            remote_port,
        },
    )
}

/// The bootstrap servers of a cluster reached through a local forward:
/// `127.0.0.1` and the forward's local port.
pub fn tunneled_bootstrap(local_port: u16) -> (r: String)
    ensures
        r@ == "127.0.0.1:"@ + decimal(local_port as nat),
{
    let mut r = to_owned_string("127.0.0.1:");
    push_decimal(&mut r, local_port as u64);
    r
}

/// The known-hosts file of an SSH cluster: where it is blank, the default
/// path; other settings are left as they are.
pub fn fill_known_hosts(cfg: &mut ConnectionConfig, default_path: String)
    ensures
        (old(cfg).ssh && is_blank(old(cfg).ssh_known_hosts_path@)) ==> *final(cfg) == (
        ConnectionConfig { ssh_known_hosts_path: default_path, ..*old(cfg) }),
        !(old(cfg).ssh && is_blank(old(cfg).ssh_known_hosts_path@)) ==> *final(cfg) == *old(cfg),
{
    if cfg.ssh && is_blank_str(cfg.ssh_known_hosts_path.as_str()) {
        cfg.ssh_known_hosts_path = default_path;
    }
}

} // verus!
