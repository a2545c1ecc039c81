//! The list of saved clusters: replacing and removing entries by id, and
//! reading the clusters of a Kafka-King configuration.
use vstd::prelude::*;
use crate::config::{
    ConnectionConfig, SaslMechanism, SchemaRegistryConfig, mechanism_from_king, new_uuid_v7,
    uuid_v7_text,
};
use crate::text::{
    decimal, int_text, push_decimal, push_int, str_eq, to_ascii_lower, to_ascii_lowercase,
    to_owned_string,
};

verus! {

/// The saved clusters as they are stored.
#[derive(Clone, Debug)]
pub struct ConnectionFile {
    pub connections: Vec<ConnectionConfig>,
}

/// The entry at `i` is the first with this id.
pub open spec fn first_with_id(s: Seq<ConnectionConfig>, id: Seq<char>, i: int) -> bool {
    0 <= i < s.len() && s[i].id@ == id && forall|j: int| 0 <= j < i ==> s[j].id@ != id
}

/// Some entry has this id.
pub open spec fn has_id(s: Seq<ConnectionConfig>, id: Seq<char>) -> bool {
    exists|i: int| 0 <= i < s.len() && s[i].id@ == id
}

/// The list once `conn` is saved: it replaces the first entry with its id,
/// or is appended where there is none.
pub open spec fn upserted(s: Seq<ConnectionConfig>, conn: ConnectionConfig) -> Seq<ConnectionConfig> {
    if has_id(s, conn.id@) {
        let i = choose|i: int| first_with_id(s, conn.id@, i);
        s.update(i, conn)
    } else {
        s.push(conn)
    }
}

/// The list without the entries that have this id, in their order.
pub open spec fn without_id(s: Seq<ConnectionConfig>, id: Seq<char>) -> Seq<ConnectionConfig> {
    s.filter(other_id(id))
}

/// The entry has an id other than this one.
pub open spec fn other_id(id: Seq<char>) -> spec_fn(ConnectionConfig) -> bool {
    |c: ConnectionConfig| c.id@ != id
}

/// The entry found under an id: the first that has it.
pub open spec fn lookup(s: Seq<ConnectionConfig>, id: Seq<char>) -> Option<ConnectionConfig> {
    if has_id(s, id) {
        Some(s[choose|i: int| first_with_id(s, id, i)])
    } else {
        None
    }
}

/// No two entries share an id.
pub open spec fn ids_unique(s: Seq<ConnectionConfig>) -> bool {
    forall|i: int, j: int| 0 <= i < s.len() && 0 <= j < s.len() && i != j ==> s[i].id@ != s[j].id@
}

pub(crate) proof fn lemma_first_exists(s: Seq<ConnectionConfig>, id: Seq<char>)
    requires
        has_id(s, id),
    ensures
        exists|i: int| first_with_id(s, id, i),
    decreases s.len(),
{
    let k = choose|k: int| 0 <= k < s.len() && s[k].id@ == id;
    if s[0].id@ == id {
        assert(first_with_id(s, id, 0));
    } else {
        let t = s.drop_first();
        assert(t[k - 1].id@ == id);
        lemma_first_exists(t, id);
        let i = choose|i: int| first_with_id(t, id, i);
        assert forall|j: int| 0 <= j < i + 1 implies s[j].id@ != id by {
            if j > 0 {
                assert(s[j] == t[j - 1]);
            }
        }
        assert(first_with_id(s, id, i + 1));
    }
}

pub(crate) proof fn lemma_first_unique(s: Seq<ConnectionConfig>, id: Seq<char>, i: int, k: int)
    requires
        first_with_id(s, id, i),
        first_with_id(s, id, k),
    ensures
        i == k,
{
    if i < k {
        assert(s[i].id@ != id);
    }
    if k < i {
        assert(s[k].id@ != id);
    }
}

/// Finds the first entry with an id.
pub(crate) fn position_of_id(all: &Vec<ConnectionConfig>, id: &str) -> (r: Option<usize>)
    ensures
        match r {
            Some(i) => first_with_id(all@, id@, i as int),
            None => !has_id(all@, id@),
        },
{
    let mut i: usize = 0;
    while i < all.len()
        invariant
            i <= all.len(),
            forall|j: int| 0 <= j < i ==> all@[j].id@ != id@,
        decreases all.len() - i,
    {
        if str_eq(all[i].id.as_str(), id) {
            return Some(i);
        }
        i = i + 1;
    }
    None
}

/// Saves a cluster: it replaces the first entry with its id, or is appended.
pub fn upsert(all: &mut Vec<ConnectionConfig>, conn: ConnectionConfig)
    ensures
        final(all)@ == upserted(old(all)@, conn),
{
    match position_of_id(all, conn.id.as_str()) {
        Some(i) => {
            proof {
                lemma_first_exists(old(all)@, conn.id@);
                let k = choose|k: int| first_with_id(old(all)@, conn.id@, k);
                lemma_first_unique(old(all)@, conn.id@, i as int, k);
            }
            all.set(i, conn);
        },
        None => {
            all.push(conn);
        },
    }
}

/// Removes every entry with this id; the others keep their order.
pub fn remove(all: &mut Vec<ConnectionConfig>, id: &str)
    ensures
        final(all)@ == without_id(old(all)@, id@),
{
    let ghost orig = all@;
    let ghost mut k: int = 0;
    let mut i: usize = 0;
    while i < all.len()
        invariant
            0 <= k <= orig.len(),
            i <= all.len(),
            all@ == without_id(orig.subrange(0, k), id@) + orig.subrange(k, orig.len() as int),
            i == without_id(orig.subrange(0, k), id@).len(),
        decreases orig.len() - k,
    {
        let ghost pre = orig.subrange(0, k);
        proof {
            assert(orig.subrange(0, k + 1) =~= pre.push(orig[k]));
            pre.lemma_filter_push(orig[k], other_id(id@));
            assert(all@[i as int] == orig[k]);
        }
        if str_eq(all[i].id.as_str(), id) {
            all.remove(i);
            proof {
                assert(all@ =~= without_id(orig.subrange(0, k + 1), id@) + orig.subrange(
                    k + 1,
                    orig.len() as int,
                ));
            }
        } else {
            proof {
                assert(all@ =~= without_id(orig.subrange(0, k + 1), id@) + orig.subrange(
                    k + 1,
                    orig.len() as int,
                ));
            }
            i = i + 1;
        }
        proof {
            k = k + 1;
        }
    }
    proof {
        assert(orig.subrange(k, orig.len() as int).len() == 0);
        assert(k == orig.len());
        assert(orig.subrange(0, k) =~= orig);
        assert(all@ =~= without_id(orig, id@));
    }
}

pub(crate) proof fn lemma_lookup_at(s: Seq<ConnectionConfig>, id: Seq<char>, i: int)
    requires
        first_with_id(s, id, i),
    ensures
        lookup(s, id) == Some(s[i]),
{
    assert(has_id(s, id));
    let k = choose|k: int| first_with_id(s, id, k);
    lemma_first_unique(s, id, i, k);
}

proof fn lemma_lookup_push(s: Seq<ConnectionConfig>, x: ConnectionConfig, id: Seq<char>)
    ensures
        lookup(s.push(x), id) == if has_id(s, id) {
            lookup(s, id)
        } else if x.id@ == id {
            Some(x)
        } else {
            None::<ConnectionConfig>
        },
{
    let t = s.push(x);
    if has_id(s, id) {
        lemma_first_exists(s, id);
        let i = choose|i: int| first_with_id(s, id, i);
        assert(first_with_id(t, id, i));
        lemma_lookup_at(s, id, i);
        lemma_lookup_at(t, id, i);
    } else if x.id@ == id {
        assert(first_with_id(t, id, s.len() as int));
        lemma_lookup_at(t, id, s.len() as int);
    } else {
        assert(!has_id(t, id)) by {
            if has_id(t, id) {
                let k = choose|k: int| 0 <= k < t.len() && t[k].id@ == id;
                if k < s.len() {
                    assert(s[k].id@ == id);
                }
            }
        }
    }
}

/// Saving a cluster and then looking up its id finds it.
pub proof fn lemma_upsert_then_lookup(s: Seq<ConnectionConfig>, conn: ConnectionConfig)
    ensures
        lookup(upserted(s, conn), conn.id@) == Some(conn),
{
    let id = conn.id@;
    if has_id(s, id) {
        lemma_first_exists(s, id);
        let i = choose|i: int| first_with_id(s, id, i);
        let t = s.update(i, conn);
        assert(first_with_id(t, id, i));
        lemma_lookup_at(t, id, i);
    } else {
        lemma_lookup_push(s, conn, id);
    }
}

/// Saving a cluster leaves what every other id finds unchanged.
pub proof fn lemma_upsert_keeps_others(s: Seq<ConnectionConfig>, conn: ConnectionConfig, id: Seq<char>)
    requires
        id != conn.id@,
    ensures
        lookup(upserted(s, conn), id) == lookup(s, id),
{
    let cid = conn.id@;
    if has_id(s, cid) {
        lemma_first_exists(s, cid);
        let i = choose|i: int| first_with_id(s, cid, i);
        let t = s.update(i, conn);
        if has_id(s, id) {
            lemma_first_exists(s, id);
            let k = choose|k: int| first_with_id(s, id, k);
            assert(k != i);
            assert(first_with_id(t, id, k));
            lemma_lookup_at(s, id, k);
            lemma_lookup_at(t, id, k);
        } else {
            assert(!has_id(t, id)) by {
                if has_id(t, id) {
                    let k = choose|k: int| 0 <= k < t.len() && t[k].id@ == id;
                    assert(k != i);
                    assert(s[k].id@ == id);
                }
            }
        }
    } else {
        lemma_lookup_push(s, conn, id);
    }
}

/// Saving keeps ids unique: where no two entries shared an id, none do after.
pub proof fn lemma_upsert_keeps_ids_unique(s: Seq<ConnectionConfig>, conn: ConnectionConfig)
    requires
        ids_unique(s),
    ensures
        ids_unique(upserted(s, conn)),
{
    let cid = conn.id@;
    let t = upserted(s, conn);
    if has_id(s, cid) {
        lemma_first_exists(s, cid);
        let i = choose|i: int| first_with_id(s, cid, i);
        assert forall|a: int, b: int| 0 <= a < t.len() && 0 <= b < t.len() && a != b implies t[a].id@
            != t[b].id@ by {
            if a == i {
                assert(s[i].id@ == cid);
            } else if b == i {
                assert(s[i].id@ == cid);
            }
        }
    } else {
        assert forall|a: int, b: int| 0 <= a < t.len() && 0 <= b < t.len() && a != b implies t[a].id@
            != t[b].id@ by {
            if a == s.len() {
                assert(s[b].id@ != cid);
            } else if b == s.len() {
                assert(s[a].id@ != cid);
            }
        }
    }
}

/// After a removal no entry has the removed id.
pub proof fn lemma_remove_then_absent(s: Seq<ConnectionConfig>, id: Seq<char>)
    ensures
        !has_id(without_id(s, id), id),
        lookup(without_id(s, id), id) is None,
{
    broadcast use Seq::lemma_filter_pred;

    let t = without_id(s, id);
    assert(!has_id(t, id)) by {
        if has_id(t, id) {
            let k = choose|k: int| 0 <= k < t.len() && t[k].id@ == id;
            s.lemma_filter_pred(other_id(id), k);
        }
    }
}

/// A removal leaves what every other id finds unchanged.
pub proof fn lemma_remove_keeps_others(s: Seq<ConnectionConfig>, id: Seq<char>, other: Seq<char>)
    requires
        other != id,
    ensures
        lookup(without_id(s, id), other) == lookup(s, other),
    decreases s.len(),
{
    if s.len() == 0 {
        assert(without_id(s, id) =~= s) by {
            reveal(Seq::filter);
        }
    } else {
        let p = s.drop_last();
        let x = s.last();
        assert(p.push(x) =~= s);
        lemma_remove_keeps_others(p, id, other);
        p.lemma_filter_push(x, other_id(id));
        lemma_lookup_push(p, x, other);
        let fp = without_id(p, id);
        if x.id@ != id {
            lemma_lookup_push(fp, x, other);
            assert(has_id(fp, other) == has_id(p, other)) by {
                if has_id(fp, other) {
                    assert(lookup(fp, other) is Some);
                } else if has_id(p, other) {
                    assert(lookup(p, other) is Some);
                }
            }
        } else {
            assert(has_id(fp, other) == has_id(p, other)) by {
                if has_id(fp, other) {
                    assert(lookup(fp, other) is Some);
                } else if has_id(p, other) {
                    assert(lookup(p, other) is Some);
                }
            }
        }
    }
}

/// Removing an id undoes saving a cluster under it: the list is what
/// removing it alone gives.
pub proof fn lemma_remove_undoes_upsert(s: Seq<ConnectionConfig>, conn: ConnectionConfig)
    ensures
        without_id(upserted(s, conn), conn.id@) == without_id(s, conn.id@),
{
    let id = conn.id@;
    let pred = other_id(id);
    if has_id(s, id) {
        lemma_first_exists(s, id);
        let i = choose|i: int| first_with_id(s, id, i);
        let t = s.update(i, conn);
        let a = s.subrange(0, i);
        let b = s.subrange(i + 1, s.len() as int);
        assert(s =~= a + seq![s[i]] + b);
        assert(t =~= a + seq![conn] + b);
        Seq::filter_distributes_over_add(a + seq![s[i]], b, pred);
        Seq::filter_distributes_over_add(a, seq![s[i]], pred);
        Seq::filter_distributes_over_add(a + seq![conn], b, pred);
        Seq::filter_distributes_over_add(a, seq![conn], pred);
        Seq::<ConnectionConfig>::empty().lemma_filter_push(s[i], pred);
        Seq::<ConnectionConfig>::empty().lemma_filter_push(conn, pred);
        assert(seq![s[i]] =~= Seq::<ConnectionConfig>::empty().push(s[i]));
        assert(seq![conn] =~= Seq::<ConnectionConfig>::empty().push(conn));
        assert(Seq::<ConnectionConfig>::empty().filter(pred) =~= Seq::<ConnectionConfig>::empty())
            by {
            reveal(Seq::filter);
        }
        assert(without_id(t, id) =~= without_id(s, id));
    } else {
        s.lemma_filter_push(conn, pred);
    }
}

/// The global schema registry of a Kafka-King configuration.
#[derive(Clone, Debug)]
pub struct KingSr {
    pub url: String,
    pub user: String,
    pub pass: String,
    pub skip_tls: String,
}

/// One cluster of a Kafka-King configuration, its fields as written there.
#[derive(Clone, Debug)]
pub struct KingConnect {
    pub id: i64,
    pub name: String,
    pub bootstrap_servers: String,
    pub tls: String,
    pub skip_tls_verify: String,
    pub tls_cert_file: String,
    pub tls_key_file: String,
    pub tls_ca_file: String,
    pub sasl: String,
    pub sasl_mechanism: String,
    pub sasl_user: String,
    pub sasl_pwd: String,
    pub kerberos_user_keytab: String,
    pub kerberos_krb5_conf: String,
    pub kerberos_user: String,
    pub kerberos_realm: String,
    pub kerberos_service_name: String,
    pub use_ssh: String,
    pub ssh_host: String,
    pub ssh_port: i64,
    pub ssh_user: String,
    pub ssh_password: String,
    pub ssh_key_file: String,
}

/// A Kafka-King configuration: its clusters and an optional global registry.
#[derive(Clone, Debug)]
pub struct KingRoot {
    pub connects: Vec<KingConnect>,
    pub schema_registry: Option<KingSr>,
}

/// A Kafka-King switch is on: `enable`, `true`, `1` or `yes`, in any ASCII case.
pub open spec fn king_enabled(s: Seq<char>) -> bool {
    let l = to_ascii_lower(s);
    l == "enable"@ || l == "true"@ || l == "1"@ || l == "yes"@
}

/// Reads a Kafka-King switch.
pub fn is_enabled(s: &str) -> (r: bool)
    ensures
        r == king_enabled(s@),
{
    let l = to_ascii_lowercase(s);
    str_eq(l.as_str(), "enable") || str_eq(l.as_str(), "true") || str_eq(l.as_str(), "1")
        || str_eq(l.as_str(), "yes")
}

/// The schema registry that each imported cluster gets from the global one:
/// its URL, user and password, with TLS checks skipped where its switch is
/// on or empty.
pub open spec fn king_registry(sr: KingSr) -> SchemaRegistryConfig {
    SchemaRegistryConfig {
        url: sr.url,
        user: sr.user,
        password: sr.pass,
        skip_tls: king_enabled(sr.skip_tls@) || sr.skip_tls@.len() == 0,
    }
}

/// The id of an imported cluster: `king-` and its number; a number of 0 gets
/// a fresh version 7 UUID instead.
pub open spec fn king_id_ok(k: KingConnect, id: Seq<char>) -> bool {
    if k.id == 0 {
        uuid_v7_text(id)
    } else {
        id == "king-"@ + int_text(k.id as int)
    }
}

/// `c` is the saved cluster of a Kafka-King entry: the id as
/// `king_id_ok` says, the switches read with `king_enabled`, the mechanism
/// with `mechanism_from_king`, the Kerberos service `kafka` where none is
/// named, SSH port 22 where the number is not positive (otherwise its low
/// 16 bits), the global registry, and no OAuth token, MSK settings,
/// known-hosts path or monitor.
pub open spec fn imported_from_king(c: ConnectionConfig, k: KingConnect, sr: KingSr) -> bool {
    &&& king_id_ok(k, c.id@)
    &&& c.name == k.name
    &&& c.bootstrap_servers == k.bootstrap_servers
    &&& c.tls == king_enabled(k.tls@)
    &&& c.skip_tls_verify == king_enabled(k.skip_tls_verify@)
    &&& c.tls_cert_file == k.tls_cert_file
    &&& c.tls_key_file == k.tls_key_file
    &&& c.tls_ca_file == k.tls_ca_file
    &&& c.sasl == king_enabled(k.sasl@)
    &&& c.sasl_mechanism == mechanism_from_king(k.sasl_mechanism@)
    &&& c.sasl_user == k.sasl_user
    &&& c.sasl_password == k.sasl_pwd
    &&& c.sasl_oauth_token@.len() == 0
    &&& c.msk_region@.len() == 0
    &&& c.msk_profile@.len() == 0
    &&& c.kerberos_keytab == k.kerberos_user_keytab
    &&& c.kerberos_krb5 == k.kerberos_krb5_conf
    &&& c.kerberos_principal == k.kerberos_user
    &&& c.kerberos_realm == k.kerberos_realm
    &&& c.kerberos_service@ == (if k.kerberos_service_name@.len() == 0 {
        "kafka"@
    } else {
        k.kerberos_service_name@
    })
    &&& c.ssh == king_enabled(k.use_ssh@)
    &&& c.ssh_host == k.ssh_host
    &&& c.ssh_port == (if k.ssh_port <= 0 {
        22
    } else {
        k.ssh_port as u16
    })
    &&& c.ssh_user == k.ssh_user
    &&& c.ssh_password == k.ssh_password
    &&& c.ssh_key_file == k.ssh_key_file
    &&& c.ssh_known_hosts_path@.len() == 0
    &&& c.monitor_webhook@.len() == 0
    &&& c.monitor_lag_threshold == 0
    &&& c.sr == king_registry(sr)
}

/// An imported cluster keeps what the Kafka-King entry gave: its name and
/// bootstrap servers, its SASL user and password, its TLS files, its
/// Kerberos keytab, configuration, principal and realm, and its SSH host,
/// user, password and key file; an entry with a number other than 0 is
/// saved as `king-` and that number.
pub proof fn lemma_import_keeps_entry(c: ConnectionConfig, k: KingConnect, sr: KingSr)
    requires
        imported_from_king(c, k, sr),
    ensures
        c.name == k.name && c.bootstrap_servers == k.bootstrap_servers,
        c.sasl_user == k.sasl_user && c.sasl_password == k.sasl_pwd,
        c.tls_ca_file == k.tls_ca_file && c.tls_cert_file == k.tls_cert_file && c.tls_key_file
            == k.tls_key_file,
        c.kerberos_keytab == k.kerberos_user_keytab && c.kerberos_krb5 == k.kerberos_krb5_conf
            && c.kerberos_principal == k.kerberos_user && c.kerberos_realm == k.kerberos_realm,
        c.ssh_host == k.ssh_host && c.ssh_user == k.ssh_user && c.ssh_password == k.ssh_password
            && c.ssh_key_file == k.ssh_key_file,
        k.id != 0 ==> c.id@ == "king-"@ + int_text(k.id as int),
        k.kerberos_service_name@.len() > 0 ==> c.kerberos_service@ == k.kerberos_service_name@,
        c.sr.url == sr.url && c.sr.user == sr.user && c.sr.password == sr.pass,
{
}

fn empty_king_sr() -> (r: KingSr)
    ensures
        r.url@.len() == 0 && r.user@.len() == 0 && r.pass@.len() == 0 && r.skip_tls@.len() == 0,
{
    KingSr { url: String::new(), user: String::new(), pass: String::new(), skip_tls: String::new() }
}

fn king_entry(k: KingConnect, sr: &KingSr, sr_skip_tls: bool) -> (c: ConnectionConfig)
    requires
        sr_skip_tls == (king_enabled(sr.skip_tls@) || sr.skip_tls@.len() == 0),
    ensures
        imported_from_king(c, k, *sr),
{
    let id = if k.id == 0 {
        new_uuid_v7()
    } else {
        let mut t = to_owned_string("king-");
        push_int(&mut t, k.id);
        t
    };
    let kerberos_service = if k.kerberos_service_name.as_str().is_empty() {
        to_owned_string("kafka")
    } else {
        k.kerberos_service_name
    };
    let ssh_port: u16 = if k.ssh_port <= 0 {
        22
    } else {
        k.ssh_port as u16
    };
    ConnectionConfig {
        id,
        name: k.name,
        bootstrap_servers: k.bootstrap_servers,
        tls: is_enabled(k.tls.as_str()),
        skip_tls_verify: is_enabled(k.skip_tls_verify.as_str()),
        tls_cert_file: k.tls_cert_file,
        tls_key_file: k.tls_key_file,
        tls_ca_file: k.tls_ca_file,
        sasl: is_enabled(k.sasl.as_str()),
        sasl_mechanism: SaslMechanism::from_king(k.sasl_mechanism.as_str()),
        sasl_user: k.sasl_user,
        sasl_password: k.sasl_pwd,
        sasl_oauth_token: String::new(),
        msk_region: String::new(),
        msk_profile: String::new(),
        kerberos_keytab: k.kerberos_user_keytab,
        kerberos_krb5: k.kerberos_krb5_conf,
        kerberos_principal: k.kerberos_user,
        kerberos_realm: k.kerberos_realm,
        kerberos_service,
        ssh: is_enabled(k.use_ssh.as_str()),
        ssh_host: k.ssh_host,
        ssh_port,
        ssh_user: k.ssh_user,
        ssh_password: k.ssh_password,
        ssh_key_file: k.ssh_key_file,
        ssh_known_hosts_path: String::new(),
        monitor_webhook: String::new(),
        monitor_lag_threshold: 0,
        sr: SchemaRegistryConfig {
            url: sr.url.clone(),
            user: sr.user.clone(),
            password: sr.pass.clone(),
            skip_tls: sr_skip_tls,
        },
    }
}

/// The saved clusters of a Kafka-King configuration, one per entry in its
/// order, each with the global registry (an empty one where there is none).
pub fn import_king(root: KingRoot) -> (r: Vec<ConnectionConfig>)
    ensures
        r@.len() == root.connects@.len(),
        exists|sr: KingSr|
            {
                &&& (match root.schema_registry {
                    Some(g) => sr == g,
                    None => sr.url@.len() == 0 && sr.user@.len() == 0 && sr.pass@.len() == 0
                        && sr.skip_tls@.len() == 0,
                })
                &&& forall|i: int|
                    0 <= i < r@.len() ==> imported_from_king(#[trigger] r@[i], root.connects@[i], sr)
            },
        forall|i: int|
            0 <= i < r@.len() ==> {
                &&& (#[trigger] r@[i]).sasl_user == root.connects@[i].sasl_user
                &&& r@[i].sasl_password == root.connects@[i].sasl_pwd
                &&& r@[i].name == root.connects@[i].name
                &&& r@[i].bootstrap_servers == root.connects@[i].bootstrap_servers
                &&& r@[i].ssh_password == root.connects@[i].ssh_password
                &&& r@[i].ssh_key_file == root.connects@[i].ssh_key_file
                &&& r@[i].kerberos_keytab == root.connects@[i].kerberos_user_keytab
                &&& (root.connects@[i].id != 0 ==> r@[i].id@ == "king-"@ + int_text(
                    root.connects@[i].id as int,
                ))
            },
{
    let ghost orig = root;
    let sr = match root.schema_registry {
        Some(g) => g,
        None => empty_king_sr(),
    };
    let sr_skip_tls = is_enabled(sr.skip_tls.as_str()) || sr.skip_tls.as_str().is_empty();
    let mut connects = root.connects;
    let mut out: Vec<ConnectionConfig> = Vec::new();
    let n = connects.len();
    let mut i: usize = 0;
    while i < n
        invariant
            n == orig.connects@.len(),
            i <= n,
            connects@ == orig.connects@.subrange(i as int, n as int),
            out@.len() == i,
            sr_skip_tls == (king_enabled(sr.skip_tls@) || sr.skip_tls@.len() == 0),
            forall|j: int| 0 <= j < i ==> imported_from_king(#[trigger] out@[j], orig.connects@[j], sr),
        decreases n - i,
    {
        let k = connects.remove(0);
        assert(k == orig.connects@[i as int]);
        out.push(king_entry(k, &sr, sr_skip_tls));
        proof {
            assert(connects@ =~= orig.connects@.subrange(i + 1, n as int));
        }
        i = i + 1;
    }
    out
}

/// What an import reports: how many clusters were saved.
pub fn imported_message(saved: usize) -> (r: String)
    ensures
        r@ == "imported "@ + decimal(saved as nat) + " connections"@,
{
    let mut r = to_owned_string("imported ");
    push_decimal(&mut r, saved as u64);
    r.append(" connections");
    r
}

} // verus!
