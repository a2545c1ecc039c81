//! The table rows and exports of the client's document panes, and the small
//! forms that they read.
use vstd::prelude::*;
use crate::client::{AclEntry, BrokerInfo, GroupOverview, PartitionInfo, TopicOverview};
use crate::clock::{format_unix_secs, shown_format, utc_in_range, utc_text};
use crate::docs::DocKind;
use crate::stream::ConsumedRecord;
use crate::text::{
    contains, contains_str, int_text, int_to_string, is_blank, is_blank_str, parse_in_range,
    parse_int, push_int, push_replaced, replace_char, split_once, split_once_str, to_ascii_lower,
    to_ascii_lowercase, to_owned_string,
};

verus! {

/// The texts of a row of strings.
pub open spec fn texts(v: Seq<String>) -> Seq<Seq<char>> {
    v.map_values(|s: String| s@)
}

/// `i64::saturating_sub`: the difference, held within the range of `i64`.
pub open spec fn saturating_diff(a: i64, b: i64) -> int {
    let d = a - b;
    if d > i64::MAX {
        i64::MAX as int
    } else if d < i64::MIN {
        i64::MIN as int
    } else {
        d
    }
}

/// `i64::saturating_sub`.
pub fn saturating_sub(a: i64, b: i64) -> (r: i64)
    ensures
        r as int == saturating_diff(a, b),
{
    let d = a as i128 - b as i128;
    if d > i64::MAX as i128 {
        i64::MAX
    } else if d < i64::MIN as i128 {
        i64::MIN
    } else {
        d as i64
    }
}

/// The cells of a topic's row: name, partitions, replication, error.
pub open spec fn topic_cells(t: TopicOverview) -> Seq<Seq<char>> {
    seq![t.name@, int_text(t.partitions as int), int_text(t.replication as int), t.error@]
}

/// The cells of a broker's row: id, host, port.
pub open spec fn broker_cells(b: BrokerInfo) -> Seq<Seq<char>> {
    seq![int_text(b.id as int), b.host@, int_text(b.port as int)]
}

/// The cells of a group's row: id, state, protocol.
pub open spec fn group_cells(g: GroupOverview) -> Seq<Seq<char>> {
    seq![g.id@, g.state@, g.protocol@]
}

/// The cells of an ACL's row: principal, operation, permission, and
/// `type:name` of the resource.
pub open spec fn acl_cells(a: AclEntry) -> Seq<Seq<char>> {
    seq![a.principal@, a.operation@, a.permission@, a.resource_type@ + ":"@ + a.resource_name@]
}

/// The cells of a monitored partition's row: topic, partition, the
/// watermarks as `low..high`, and the lag `high - low` (held within `i64`).
pub open spec fn monitor_cells(topic: Seq<char>, partition: i32, low: i64, high: i64) -> Seq<Seq<char>> {
    seq![
        topic,
        int_text(partition as int),
        int_text(low as int) + ".."@ + int_text(high as int),
        int_text(saturating_diff(high, low)),
    ]
}

/// A row of the topics table.
pub fn topic_row(t: TopicOverview) -> (r: Vec<String>)
    ensures
        texts(r@) == topic_cells(t),
{
    let mut r = Vec::new();
    r.push(t.name);
    r.push(int_to_string(t.partitions as i64));
    r.push(int_to_string(t.replication as i64));
    r.push(t.error);
    assert(texts(r@) =~= seq![t.name@, int_text(t.partitions as int), int_text(t.replication as int), t.error@]);
    r
}

/// A row of the brokers table.
pub fn broker_row(b: BrokerInfo) -> (r: Vec<String>)
    ensures
        texts(r@) == broker_cells(b),
{
    let mut r = Vec::new();
    r.push(int_to_string(b.id as i64));
    r.push(b.host);
    r.push(int_to_string(b.port as i64));
    assert(texts(r@) =~= seq![int_text(b.id as int), b.host@, int_text(b.port as int)]);
    r
}

/// A row of the groups table.
pub fn group_row(g: GroupOverview) -> (r: Vec<String>)
    ensures
        texts(r@) == group_cells(g),
{
    let mut r = Vec::new();
    r.push(g.id);
    r.push(g.state);
    r.push(g.protocol);
    assert(texts(r@) =~= seq![g.id@, g.state@, g.protocol@]);
    r
}

/// A row of the ACL table.
pub fn acl_row(a: AclEntry) -> (r: Vec<String>)
    ensures
        texts(r@) == acl_cells(a),
{
    let mut res = a.resource_type;
    res.append(":");
    res.append(a.resource_name.as_str());
    let mut r = Vec::new();
    r.push(a.principal);
    r.push(a.operation);
    r.push(a.permission);
    r.push(res);
    assert(texts(r@) =~= seq![a.principal@, a.operation@, a.permission@, a.resource_type@ + ":"@ + a.resource_name@]);
    r
}

/// A row of the monitor table: topic, partition, the watermarks as
/// `low..high`, and the lag `high - low` (held within `i64`).
pub fn monitor_row(topic: String, partition: i32, low: i64, high: i64) -> (r: Vec<String>)
    ensures
        texts(r@) == monitor_cells(topic@, partition, low, high),
{
    let mut marks = int_to_string(low);
    marks.append("..");
    push_int(&mut marks, high);
    let lag = saturating_sub(high, low);
    let mut r = Vec::new();
    r.push(topic);
    r.push(int_to_string(partition as i64));
    r.push(marks);
    r.push(int_to_string(lag));
    assert(texts(r@) =~= seq![
        topic@,
        int_text(partition as int),
        int_text(low as int) + ".."@ + int_text(high as int),
        int_text(saturating_diff(high, low)),
    ]);
    r
}

/// How many topics the monitor pane watches, the first ones listed.
pub const MONITOR_TOPICS: usize = 20;

/// How many partitions of each topic the monitor pane watches.
pub const MONITOR_PARTITIONS: usize = 8;

/// The first `n` items, all of them where there are fewer.
pub open spec fn first_n<T>(s: Seq<T>, n: int) -> Seq<T> {
    if s.len() <= n {
        s
    } else {
        s.subrange(0, n)
    }
}

/// The topics that the monitor pane watches: the first 20 listed.
pub fn monitor_topics(topics: Vec<TopicOverview>) -> (r: Vec<TopicOverview>)
    ensures
        r@ == first_n(topics@, MONITOR_TOPICS as int),
{
    let mut r = topics;
    r.truncate(MONITOR_TOPICS);
    r
}

/// The partitions of a topic that the monitor pane watches: the first 8.
pub fn monitor_partitions(parts: Vec<PartitionInfo>) -> (r: Vec<PartitionInfo>)
    ensures
        r@ == first_n(parts@, MONITOR_PARTITIONS as int),
{
    let mut r = parts;
    r.truncate(MONITOR_PARTITIONS);
    r
}

/// A row of the brokers table for a log directory: no id, its name, its
/// description.
pub fn log_dir_row(name: String, detail: String) -> (r: Vec<String>)
    ensures
        texts(r@) == seq![Seq::<char>::empty(), name@, detail@],
{
    let mut r = Vec::new();
    r.push(String::new());
    r.push(name);
    r.push(detail);
    assert(texts(r@) =~= seq![Seq::<char>::empty(), name@, detail@]);
    r
}

/// The row of the brokers table where log directories cannot be described:
/// no id, `logdirs`, the error's text.
pub fn log_dirs_error_row(message: String) -> (r: Vec<String>)
    ensures
        texts(r@) == seq![Seq::<char>::empty(), "logdirs"@, message@],
{
    log_dir_row(to_owned_string("logdirs"), message)
}

/// The one row of the ACL table where ACLs cannot be listed: the error's
/// text, then three empty cells.
pub fn acl_error_row(message: String) -> (r: Vec<String>)
    ensures
        texts(r@) == seq![message@, Seq::<char>::empty(), Seq::<char>::empty(), Seq::<char>::empty()],
{
    let mut r = Vec::new();
    r.push(message);
    r.push(String::new());
    r.push(String::new());
    r.push(String::new());
    assert(texts(r@) =~= seq![message@, Seq::<char>::empty(), Seq::<char>::empty(), Seq::<char>::empty()]);
    r
}

/// The one row of the registry table of a cluster without a registry.
pub fn no_registry_row() -> (r: Vec<String>)
    ensures
        texts(r@) == seq!["Schema Registry URL is not set"@],
{
    let mut r = Vec::new();
    r.push(to_owned_string("Schema Registry URL is not set"));
    assert(texts(r@) =~= seq!["Schema Registry URL is not set"@]);
    r
}

/// The texts of a table, row by row.
pub open spec fn tables(rows: Seq<Vec<String>>) -> Seq<Seq<Seq<char>>> {
    rows.map_values(|r: Vec<String>| texts(r@))
}

/// What a pane fetches from the cluster to fill its table.
#[derive(Clone, Copy, Debug, PartialEq, Eq, Structural)]
pub enum Fetch {
    /// The topic listing.
    Topics,
    /// The broker listing and the log directories.
    Nodes,
    /// The group listing.
    Groups,
    /// The ACL listing.
    Acls,
    /// The registry's subjects, where there is a registry.
    Subjects,
    /// The topic listing, then the partitions of the first topics and the
    /// watermarks of their first partitions.
    Monitor,
    /// Nothing: the pane has no table to load.
    Nothing,
}

/// What each kind of pane fetches.
pub open spec fn fetch_of(k: DocKind) -> Fetch {
    match k {
        DocKind::Topics => Fetch::Topics,
        DocKind::Nodes => Fetch::Nodes,
        DocKind::Groups => Fetch::Groups,
        DocKind::Acl => Fetch::Acls,
        DocKind::Sr => Fetch::Subjects,
        DocKind::Monitor => Fetch::Monitor,
        DocKind::Producer | DocKind::Consumer => Fetch::Nothing,
    }
}

/// What a kind of pane fetches.
pub fn fetch_for(kind: DocKind) -> (r: Fetch)
    ensures
        r == fetch_of(kind),
{
    match kind {
        DocKind::Topics => Fetch::Topics,
        DocKind::Nodes => Fetch::Nodes,
        DocKind::Groups => Fetch::Groups,
        DocKind::Acl => Fetch::Acls,
        DocKind::Sr => Fetch::Subjects,
        DocKind::Monitor => Fetch::Monitor,
        DocKind::Producer | DocKind::Consumer => Fetch::Nothing,
    }
}

/// A monitored partition and what fetching its watermarks gave.
#[derive(Debug)]
pub struct MonitorPartition {
    pub id: i32,
    pub watermarks: Result<(i64, i64), String>,
}

/// A monitored topic and what fetching its partitions gave.
#[derive(Debug)]
pub struct MonitorTopic {
    pub name: String,
    pub partitions: Result<Vec<MonitorPartition>, String>,
}

/// What the cluster answered to a pane's fetch; each error is its text.
#[derive(Debug)]
pub enum Fetched {
    Topics(Result<Vec<TopicOverview>, String>),
    /// The brokers, and the log directories as name and description.
    Nodes(Result<Vec<BrokerInfo>, String>, Result<Vec<(String, String)>, String>),
    Groups(Result<Vec<GroupOverview>, String>),
    Acls(Result<Vec<AclEntry>, String>),
    /// The subjects; none where the cluster has no registry.
    Subjects(Option<Result<Vec<String>, String>>),
    Monitor(Result<Vec<MonitorTopic>, String>),
    Nothing,
}

/// The rows of the monitored partitions of a topic whose watermarks were
/// fetched; the others are skipped.
pub open spec fn partition_rows(topic: Seq<char>, ps: Seq<MonitorPartition>) -> Seq<Seq<Seq<char>>>
    decreases ps.len(),
{
    if ps.len() == 0 {
        Seq::empty()
    } else {
        partition_rows(topic, ps.drop_last()) + match ps.last().watermarks {
            Ok((low, high)) => seq![monitor_cells(topic, ps.last().id, low, high)],
            Err(_) => Seq::empty(),
        }
    }
}

/// The rows of the monitored topics whose partitions were fetched, each
/// with at most its first 8 partitions; the others are skipped.
pub open spec fn monitor_table(ts: Seq<MonitorTopic>) -> Seq<Seq<Seq<char>>>
    decreases ts.len(),
{
    if ts.len() == 0 {
        Seq::empty()
    } else {
        monitor_table(ts.drop_last()) + match ts.last().partitions {
            Ok(ps) => partition_rows(ts.last().name@, first_n(ps@, MONITOR_PARTITIONS as int)),
            Err(_) => Seq::empty(),
        }
    }
}

/// The cells of a log directory's row.
pub open spec fn dir_cells(d: (String, String)) -> Seq<Seq<char>> {
    seq![Seq::<char>::empty(), d.0@, d.1@]
}

/// The cells of a subject's row.
pub open spec fn subject_cells(s: String) -> Seq<Seq<char>> {
    seq![s@]
}

/// The table that a fetch's answer fills, or the error that the pane shows
/// instead: a failed listing is the error; failed log directories or ACLs
/// become a row of their own; a cluster without a registry gets a row
/// saying so; the monitor watches the first 20 topics and the first 8
/// partitions of each, and skips what it could not fetch.
pub open spec fn table_of(f: Fetched) -> Result<Seq<Seq<Seq<char>>>, Seq<char>> {
    match f {
        Fetched::Topics(Err(e)) => Err(e@),
        Fetched::Topics(Ok(ts)) => Ok(ts@.map_values(|t: TopicOverview| topic_cells(t))),
        Fetched::Nodes(Err(e), _) => Err(e@),
        Fetched::Nodes(Ok(bs), dirs) => Ok(
            bs@.map_values(|b: BrokerInfo| broker_cells(b)) + match dirs {
                Ok(ds) => ds@.map_values(|d: (String, String)| dir_cells(d)),
                Err(e) => seq![seq![Seq::<char>::empty(), "logdirs"@, e@]],
            },
        ),
        Fetched::Groups(Err(e)) => Err(e@),
        Fetched::Groups(Ok(gs)) => Ok(gs@.map_values(|g: GroupOverview| group_cells(g))),
        Fetched::Acls(Err(e)) => Ok(
            seq![seq![e@, Seq::<char>::empty(), Seq::<char>::empty(), Seq::<char>::empty()]],
        ),
        Fetched::Acls(Ok(acls)) => Ok(acls@.map_values(|a: AclEntry| acl_cells(a))),
        Fetched::Subjects(None) => Ok(seq![seq!["Schema Registry URL is not set"@]]),
        Fetched::Subjects(Some(Err(e))) => Err(e@),
        Fetched::Subjects(Some(Ok(ss))) => Ok(ss@.map_values(|s: String| subject_cells(s))),
        Fetched::Monitor(Err(e)) => Err(e@),
        Fetched::Monitor(Ok(ts)) => Ok(monitor_table(first_n(ts@, MONITOR_TOPICS as int))),
        Fetched::Nothing => Ok(Seq::empty()),
    }
}

fn map_rows<T, F: Fn(T) -> Vec<String>>(
    items: Vec<T>,
    f: F,
    Ghost(cells): Ghost<spec_fn(T) -> Seq<Seq<char>>>,
) -> (r: Vec<Vec<String>>)
    requires
        forall|t: T| call_requires(f, (t,)),
        forall|t: T, row: Vec<String>| call_ensures(f, (t,), row) ==> texts(row@) == cells(t),
    ensures
        tables(r@) == items@.map_values(cells),
{
    let ghost orig = items@;
    let mut items = items;
    let n = items.len();
    let mut out: Vec<Vec<String>> = Vec::new();
    let mut i: usize = 0;
    while i < n
        invariant
            n == orig.len(),
            i <= n,
            items@ == orig.subrange(i as int, n as int),
            tables(out@) == orig.subrange(0, i as int).map_values(cells),
            forall|t: T| call_requires(f, (t,)),
            forall|t: T, row: Vec<String>| call_ensures(f, (t,), row) ==> texts(row@) == cells(t),
        decreases n - i,
    {
        let t = items.remove(0);
        assert(t == orig[i as int]);
        let row = f(t);
        let ghost before = out@;
        out.push(row);
        proof {
            assert(items@ =~= orig.subrange(i + 1, n as int));
            assert(tables(out@) =~= tables(before).push(texts(row@)));
            assert(orig.subrange(0, i + 1).map_values(cells) =~= orig.subrange(0, i as int).map_values(
                cells,
            ).push(cells(orig[i as int])));
        }
        i = i + 1;
    }
    assert(orig.subrange(0, n as int) =~= orig);
    out
}

fn dir_row(d: (String, String)) -> (r: Vec<String>)
    ensures
        texts(r@) == dir_cells(d),
{
    log_dir_row(d.0, d.1)
}

fn subject_row(s: String) -> (r: Vec<String>)
    ensures
        texts(r@) == subject_cells(s),
{
    let mut r = Vec::new();
    r.push(s);
    assert(texts(r@) =~= subject_cells(s));
    r
}

fn push_partition_rows(out: &mut Vec<Vec<String>>, topic: &String, parts: Vec<MonitorPartition>)
    ensures
        tables(final(out)@) == tables(old(out)@) + partition_rows(topic@, parts@),
{
    let ghost orig = parts@;
    let ghost start = tables(out@);
    let mut parts = parts;
    let n = parts.len();
    let mut i: usize = 0;
    while i < n
        invariant
            n == orig.len(),
            i <= n,
            parts@ == orig.subrange(i as int, n as int),
            tables(out@) == start + partition_rows(topic@, orig.subrange(0, i as int)),
        decreases n - i,
    {
        let p = parts.remove(0);
        assert(p == orig[i as int]);
        let ghost before = out@;
        proof {
            let q = orig.subrange(0, i + 1);
            assert(q.drop_last() =~= orig.subrange(0, i as int));
            assert(q.last() == p);
        }
        match p.watermarks {
            Ok((low, high)) => {
                out.push(monitor_row(topic.clone(), p.id, low, high));
                assert(tables(out@) =~= tables(before).push(monitor_cells(topic@, p.id, low, high)));
            },
            Err(_) => {},
        }
        proof {
            assert(parts@ =~= orig.subrange(i + 1, n as int));
            assert(tables(out@) =~= start + partition_rows(topic@, orig.subrange(0, i + 1)));
        }
        i = i + 1;
    }
    assert(orig.subrange(0, n as int) =~= orig);
}

fn monitor_rows(topics: Vec<MonitorTopic>) -> (r: Vec<Vec<String>>)
    ensures
        tables(r@) == monitor_table(first_n(topics@, MONITOR_TOPICS as int)),
{
    let ghost input = topics@;
    let mut topics = topics;
    topics.truncate(MONITOR_TOPICS);
    assert(topics@ =~= first_n(input, MONITOR_TOPICS as int));
    let ghost orig = topics@;
    let n = topics.len();
    let mut out: Vec<Vec<String>> = Vec::new();
    let mut i: usize = 0;
    while i < n
        invariant
            n == orig.len(),
            i <= n,
            topics@ == orig.subrange(i as int, n as int),
            tables(out@) == monitor_table(orig.subrange(0, i as int)),
        decreases n - i,
    {
        let t = topics.remove(0);
        assert(t == orig[i as int]);
        proof {
            let q = orig.subrange(0, i + 1);
            assert(q.drop_last() =~= orig.subrange(0, i as int));
            assert(q.last() == t);
        }
        match t.partitions {
            Ok(parts) => {
                let ghost fetched = parts@;
                let mut parts = parts;
                parts.truncate(MONITOR_PARTITIONS);
                assert(parts@ =~= first_n(fetched, MONITOR_PARTITIONS as int));
                push_partition_rows(&mut out, &t.name, parts);
            },
            Err(_) => {},
        }
        proof {
            assert(topics@ =~= orig.subrange(i + 1, n as int));
        }
        i = i + 1;
    }
    assert(orig.subrange(0, n as int) =~= orig);
    out
}

proof fn lemma_partition_rows_len(topic: Seq<char>, ps: Seq<MonitorPartition>)
    ensures
        partition_rows(topic, ps).len() <= ps.len(),
    decreases ps.len(),
{
    if ps.len() > 0 {
        lemma_partition_rows_len(topic, ps.drop_last());
    }
}

proof fn lemma_monitor_table_len(ts: Seq<MonitorTopic>)
    ensures
        monitor_table(ts).len() <= MONITOR_PARTITIONS * ts.len(),
    decreases ts.len(),
{
    if ts.len() > 0 {
        lemma_monitor_table_len(ts.drop_last());
        match ts.last().partitions {
            Ok(ps) => lemma_partition_rows_len(ts.last().name@, first_n(ps@, MONITOR_PARTITIONS as int)),
            Err(_) => {},
        }
    }
}

/// The monitor pane shows at most 160 rows: 8 partitions of each of 20
/// topics.
pub proof fn lemma_monitor_rows_bounded(ts: Seq<MonitorTopic>)
    ensures
        monitor_table(first_n(ts, MONITOR_TOPICS as int)).len() <= MONITOR_TOPICS * MONITOR_PARTITIONS,
{
    lemma_monitor_table_len(first_n(ts, MONITOR_TOPICS as int));
}

/// Fills a pane's table from what its fetch got back, or gives the error
/// that the pane shows instead.
pub fn load_rows(fetched: Fetched) -> (r: Result<Vec<Vec<String>>, String>)
    ensures
        match r {
            Ok(rows) => table_of(fetched) == Ok::<Seq<Seq<Seq<char>>>, Seq<char>>(tables(rows@)),
            Err(e) => table_of(fetched) == Err::<Seq<Seq<Seq<char>>>, Seq<char>>(e@),
        },
{
    match fetched {
        Fetched::Topics(Err(e)) => Err(e),
        Fetched::Topics(Ok(ts)) => Ok(map_rows(ts, topic_row, Ghost(|t: TopicOverview| topic_cells(t)))),
        Fetched::Nodes(Err(e), _) => Err(e),
        Fetched::Nodes(Ok(bs), dirs) => {
            let mut rows = map_rows(bs, broker_row, Ghost(|b: BrokerInfo| broker_cells(b)));
            let ghost first = tables(rows@);
            let mut more = match dirs {
                Ok(ds) => map_rows(ds, dir_row, Ghost(|d: (String, String)| dir_cells(d))),
                Err(e) => {
                    let mut v = Vec::new();
                    v.push(log_dirs_error_row(e));
                    assert(tables(v@) =~= seq![seq![Seq::<char>::empty(), "logdirs"@, e@]]);
                    v
                },
            };
            let ghost second = tables(more@);
            rows.append(&mut more);
            assert(tables(rows@) =~= first + second);
            Ok(rows)
        },
        Fetched::Groups(Err(e)) => Err(e),
        Fetched::Groups(Ok(gs)) => Ok(map_rows(gs, group_row, Ghost(|g: GroupOverview| group_cells(g)))),
        Fetched::Acls(Err(e)) => {
            let mut v = Vec::new();
            v.push(acl_error_row(e));
            assert(tables(v@) =~= seq![
                seq![e@, Seq::<char>::empty(), Seq::<char>::empty(), Seq::<char>::empty()],
            ]);
            Ok(v)
        },
        Fetched::Acls(Ok(acls)) => Ok(map_rows(acls, acl_row, Ghost(|a: AclEntry| acl_cells(a)))),
        Fetched::Subjects(None) => {
            let mut v = Vec::new();
            v.push(no_registry_row());
            assert(tables(v@) =~= seq![seq!["Schema Registry URL is not set"@]]);
            Ok(v)
        },
        Fetched::Subjects(Some(Err(e))) => Err(e),
        Fetched::Subjects(Some(Ok(ss))) => Ok(map_rows(ss, subject_row, Ghost(|s: String| subject_cells(s)))),
        Fetched::Monitor(Err(e)) => Err(e),
        Fetched::Monitor(Ok(ts)) => Ok(monitor_rows(ts)),
        Fetched::Nothing => {
            let v: Vec<Vec<String>> = Vec::new();
            assert(tables(v@) =~= Seq::<Seq<Seq<char>>>::empty());
            Ok(v)
        },
    }
}

/// The whole seconds of a timestamp in milliseconds, rounded toward zero.
pub open spec fn millis_to_secs(ms: i64) -> int {
    if ms >= 0 {
        ms as int / 1000
    } else {
        -((-(ms as int)) / 1000)
    }
}

/// The seconds that a record's time column shows, where it has a timestamp.
pub fn timestamp_secs(ms: Option<i64>) -> (r: Option<i64>)
    ensures
        match ms {
            Some(m) => r matches Some(s) && s as int == millis_to_secs(m),
            None => r is None,
        },
{
    match ms {
        Some(m) => Some(m / 1000),
        None => None,
    }
}

/// A row of the consumer table: topic, partition, offset, the given time
/// text, key, value.
pub fn record_row(rec: &ConsumedRecord, time: String) -> (r: Vec<String>)
    ensures
        texts(r@) == seq![
            rec.topic@,
            int_text(rec.partition as int),
            int_text(rec.offset as int),
            time@,
            rec.key@,
            rec.value@,
        ],
{
    let mut r = Vec::new();
    r.push(rec.topic.clone());
    r.push(int_to_string(rec.partition as i64));
    r.push(int_to_string(rec.offset));
    r.push(time);
    r.push(rec.key.clone());
    r.push(rec.value.clone());
    assert(texts(r@) =~= seq![
        rec.topic@,
        int_text(rec.partition as int),
        int_text(rec.offset as int),
        time@,
        rec.key@,
        rec.value@,
    ]);
    r
}

/// One line of the CSV export: topic, partition, offset, the key with its
/// commas blanked, and the value with its newlines and commas blanked.
pub open spec fn csv_line(rec: ConsumedRecord) -> Seq<char> {
    rec.topic@ + ","@ + int_text(rec.partition as int) + ","@ + int_text(rec.offset as int) + ","@
        + replace_char(rec.key@, ',', " "@) + ","@ + replace_char(
        replace_char(rec.value@, '\n', " "@),
        ',',
        " "@,
    ) + "\n"@
}

/// The lines of the CSV export, one per record.
pub open spec fn csv_lines(rows: Seq<ConsumedRecord>) -> Seq<char>
    decreases rows.len(),
{
    if rows.len() == 0 {
        Seq::empty()
    } else {
        csv_lines(rows.drop_last()) + csv_line(rows.last())
    }
}

/// The header line of the CSV export.
pub open spec fn csv_header() -> Seq<char> {
    "topic,partition,offset,key,value\n"@
}

fn push_csv_line(csv: &mut String, rec: &ConsumedRecord)
    ensures
        final(csv)@ == old(csv)@ + csv_line(*rec),
{
    csv.append(rec.topic.as_str());
    csv.append(",");
    push_int(csv, rec.partition as i64);
    csv.append(",");
    push_int(csv, rec.offset);
    csv.append(",");
    push_replaced(csv, rec.key.as_str(), ',', " ");
    csv.append(",");
    let mut v = String::new();
    push_replaced(&mut v, rec.value.as_str(), '\n', " ");
    push_replaced(csv, v.as_str(), ',', " ");
    csv.append("\n");
    assert(csv@ =~= old(csv)@ + csv_line(*rec));
}

/// The consumed records as CSV: a header line, then one line per record.
pub fn records_csv(rows: &Vec<ConsumedRecord>) -> (r: String)
    ensures
        r@ == csv_header() + csv_lines(rows@),
{
    let mut csv = to_owned_string("topic,partition,offset,key,value\n");
    let mut i: usize = 0;
    while i < rows.len()
        invariant
            i <= rows.len(),
            csv@ == csv_header() + csv_lines(rows@.subrange(0, i as int)),
        decreases rows.len() - i,
    {
        push_csv_line(&mut csv, &rows[i]);
        proof {
            let p = rows@.subrange(0, i + 1);
            assert(p.drop_last() =~= rows@.subrange(0, i as int));
        }
        i = i + 1;
    }
    assert(rows@.subrange(0, rows.len() as int) =~= rows@);
    csv
}

/// A record passes the search: the query is empty, or its lower-cased text
/// occurs in the lower-cased key or value.
pub open spec fn record_matches(rec: ConsumedRecord, query: Seq<char>) -> bool {
    let q = to_ascii_lower(query);
    q.len() == 0 || contains(to_ascii_lower(rec.key@), q) || contains(to_ascii_lower(rec.value@), q)
}

/// The records that pass the search, in their order.
pub open spec fn matching_records(rows: Seq<ConsumedRecord>, query: Seq<char>) -> Seq<ConsumedRecord> {
    rows.filter(|r: ConsumedRecord| record_matches(r, query))
}

/// A record passes the search exactly when the query, ASCII lower-cased,
/// is empty or stands at some position of the lower-cased key or of the
/// lower-cased value.
pub proof fn lemma_search_substring(rec: ConsumedRecord, query: Seq<char>)
    ensures
        record_matches(rec, query) <==> {
            let q = to_ascii_lower(query);
            let k = to_ascii_lower(rec.key@);
            let v = to_ascii_lower(rec.value@);
            ||| q.len() == 0
            ||| exists|i: int| 0 <= i && i + q.len() <= k.len() && #[trigger] k.subrange(i, i + q.len()) == q
            ||| exists|i: int| 0 <= i && i + q.len() <= v.len() && #[trigger] v.subrange(i, i + q.len()) == q
        },
{
    let q = to_ascii_lower(query);
    let k = to_ascii_lower(rec.key@);
    let v = to_ascii_lower(rec.value@);
    if exists|i: int| 0 <= i && i + q.len() <= k.len() && #[trigger] k.subrange(i, i + q.len()) == q {
        let i = choose|i: int| 0 <= i && i + q.len() <= k.len() && #[trigger] k.subrange(i, i + q.len()) == q;
        assert(crate::text::occurs_at(k, q, i));
    }
    if exists|i: int| 0 <= i && i + q.len() <= v.len() && #[trigger] v.subrange(i, i + q.len()) == q {
        let i = choose|i: int| 0 <= i && i + q.len() <= v.len() && #[trigger] v.subrange(i, i + q.len()) == q;
        assert(crate::text::occurs_at(v, q, i));
    }
    if contains(k, q) {
        let i = choose|i: int| crate::text::occurs_at(k, q, i);
        assert(k.subrange(i, i + q.len()) == q);
    }
    if contains(v, q) {
        let i = choose|i: int| crate::text::occurs_at(v, q, i);
        assert(v.subrange(i, i + q.len()) == q);
    }
}

/// The search keeps exactly the records that pass it, and no other: a
/// record of the list whose lower-cased key or value holds the lower-cased
/// query somewhere is among those kept, and each record kept is one of the
/// list that passes.
pub proof fn lemma_search_keeps(rows: Seq<ConsumedRecord>, query: Seq<char>)
    ensures
        forall|j: int|
            0 <= j < rows.len() && record_matches(#[trigger] rows[j], query) ==> matching_records(
                rows,
                query,
            ).contains(rows[j]),
        forall|x: ConsumedRecord|
            #[trigger] matching_records(rows, query).contains(x) ==> rows.contains(x) && record_matches(
                x,
                query,
            ),
{
    broadcast use Seq::lemma_filter_contains, Seq::lemma_filter_contains_rev;

    assert forall|j: int|
        0 <= j < rows.len() && record_matches(#[trigger] rows[j], query) implies matching_records(
        rows,
        query,
    ).contains(rows[j]) by {
        rows.lemma_filter_contains(|r: ConsumedRecord| record_matches(r, query), j);
    }
    assert forall|x: ConsumedRecord| #[trigger] matching_records(rows, query).contains(x) implies rows.contains(x)
        && record_matches(x, query) by {
        rows.lemma_filter_contains_rev(|r: ConsumedRecord| record_matches(r, query), x);
    }
}

/// An empty search keeps every record, in order.
pub proof fn lemma_empty_search_keeps_all(rows: Seq<ConsumedRecord>)
    ensures
        matching_records(rows, Seq::empty()) == rows,
    decreases rows.len(),
{
    let q = Seq::<char>::empty();
    if rows.len() == 0 {
        assert(matching_records(rows, q) =~= rows) by {
            reveal(Seq::filter);
        }
    } else {
        let p = rows.drop_last();
        lemma_empty_search_keeps_all(p);
        p.lemma_filter_push(rows.last(), |r: ConsumedRecord| record_matches(r, q));
        assert(to_ascii_lower(q).len() == 0);
        assert(record_matches(rows.last(), q));
        assert(p.push(rows.last()) =~= rows);
    }
}

/// A copy of a record, field by field.
pub fn copy_record(rec: &ConsumedRecord) -> (c: ConsumedRecord)
    ensures
        c == *rec,
{
    ConsumedRecord {
        topic: rec.topic.clone(),
        partition: rec.partition,
        offset: rec.offset,
        timestamp_ms: rec.timestamp_ms,
        key: rec.key.clone(),
        value: rec.value.clone(),
        headers: rec.headers.clone(),
        bytes: rec.bytes,
    }
}

/// The records whose key or value holds the query, ignoring ASCII case; all
/// of them for an empty query.
pub fn filter_records(rows: &Vec<ConsumedRecord>, query: &str) -> (r: Vec<ConsumedRecord>)
    ensures
        r@ == matching_records(rows@, query@),
{
    let q = to_ascii_lowercase(query);
    let mut out: Vec<ConsumedRecord> = Vec::new();
    let mut i: usize = 0;
    while i < rows.len()
        invariant
            i <= rows.len(),
            q@ == to_ascii_lower(query@),
            out@ == matching_records(rows@.subrange(0, i as int), query@),
        decreases rows.len() - i,
    {
        let rec = &rows[i];
        let keep = q.as_str().is_empty() || contains_str(
            to_ascii_lowercase(rec.key.as_str()).as_str(),
            q.as_str(),
        ) || contains_str(to_ascii_lowercase(rec.value.as_str()).as_str(), q.as_str());
        assert(keep == record_matches(*rec, query@));
        proof {
            let p = rows@.subrange(0, i + 1);
            assert(p.drop_last() =~= rows@.subrange(0, i as int));
            reveal_with_fuel(Seq::filter, 1);
        }
        if keep {
            out.push(copy_record(rec));
        }
        i = i + 1;
    }
    assert(rows@.subrange(0, rows.len() as int) =~= rows@);
    out
}

/// A `key=value` setting split at its first `=`.
pub fn config_assignment(spec: &str) -> (r: Option<(String, String)>)
    ensures
        match (r, split_once(spec@, '=')) {
            (Some((k, v)), Some((a, b))) => k@ == a && v@ == b,
            (None, None) => true,
            _ => false,
        },
{
    match split_once_str(spec, '=') {
        Some((k, v)) => Some((to_owned_string(k), to_owned_string(v))),
        None => None,
    }
}

/// An `i32` read from text, 0 where it is not one.
pub open spec fn i32_or_zero(text: Seq<char>) -> i32 {
    match parse_in_range(text, true, i32::MIN as int, i32::MAX as int) {
        Some(v) => v as i32,
        None => 0,
    }
}

/// Reads an `i32`, 0 where the text is not one.
pub fn parse_i32_or_zero(text: &str) -> (r: i32)
    ensures
        r == i32_or_zero(text@),
{
    match parse_int(text, true, i32::MIN as i64, i32::MAX as i64) {
        Some(v) => v as i32,
        None => 0,
    }
}

/// A request to grow a topic to a number of partitions: the topic must not
/// be blank and the count, read as an `i32`, must be positive.
pub fn partition_request(topic: &str, count: &str) -> (r: Result<(String, i32), String>)
    ensures
        (!is_blank(topic@) && i32_or_zero(count@) > 0) <==> r is Ok,
        r matches Ok((t, n)) ==> t@ == topic@ && n == i32_or_zero(count@),
        r matches Err(m) ==> m@ == "topic and partition count required"@,
{
    let total = parse_i32_or_zero(count);
    if is_blank_str(topic) || total <= 0 {
        Err(to_owned_string("topic and partition count required"))
    } else {
        Ok((to_owned_string(topic), total))
    }
}

/// The access rule that the ACL pane creates or deletes: everything allowed
/// to the principal on the topic, from any host.
pub fn topic_acl(principal: String, resource: String) -> (a: AclEntry)
    ensures
        a.principal == principal,
        a.resource_name == resource,
        a.host@ == "*"@,
        a.operation@ == "All"@,
        a.permission@ == "Allow"@,
        a.resource_type@ == "Topic"@,
{
    AclEntry {
        principal,
        host: to_owned_string("*"),
        operation: to_owned_string("All"),
        permission: to_owned_string("Allow"),
        resource_type: to_owned_string("Topic"),
        resource_name: resource,
    }
}

/// The position of the first item equal to `value`.
pub fn item_position(items: &Vec<String>, value: &str) -> (r: Option<usize>)
    ensures
        match r {
            Some(i) => i < items@.len() && items@[i as int]@ == value@ && forall|j: int|
                0 <= j < i ==> items@[j]@ != value@,
            None => forall|j: int| 0 <= j < items@.len() ==> items@[j]@ != value@,
        },
{
    let mut i: usize = 0;
    while i < items.len()
        invariant
            i <= items@.len(),
            forall|j: int| 0 <= j < i ==> items@[j]@ != value@,
        decreases items@.len() - i,
    {
        if crate::text::str_eq(items[i].as_str(), value) {
            return Some(i);
        }
        i = i + 1;
    }
    None
}

/// The value to select once a list's items change: the preferred one, or
/// else the one selected before, where it is among the new items.
pub fn kept_selection(items: &Vec<String>, prefer: Option<String>, current: Option<String>) -> (r: Option<String>)
    ensures
        match (if prefer is Some { prefer } else { current }) {
            Some(v) => if exists|j: int| 0 <= j < items@.len() && items@[j]@ == v@ {
                r == Some(v)
            } else {
                r is None
            },
            None => r is None,
        },
{
    let wanted = match prefer {
        Some(v) => Some(v),
        None => current,
    };
    match wanted {
        Some(v) => match item_position(items, v.as_str()) {
            Some(_) => Some(v),
            None => None,
        },
        None => None,
    }
}

/// The time column of a consumed record: its timestamp's whole seconds as
/// a UTC date and time, empty without a timestamp or outside chrono's range.
pub fn record_time(rec: &ConsumedRecord) -> (r: String)
    ensures
        match rec.timestamp_ms {
            Some(ms) => if utc_in_range(millis_to_secs(ms) as i64) {
                r@ == utc_text(millis_to_secs(ms) as i64, shown_format())
            } else {
                r@.len() == 0
            },
            None => r@.len() == 0,
        },
{
    match timestamp_secs(rec.timestamp_ms) {
        Some(secs) => match format_unix_secs(secs) {
            Some(t) => t,
            None => String::new(),
        },
        None => String::new(),
    }
}

} // verus!
