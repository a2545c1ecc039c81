//! A document pane: what its status line says, what it asks the cluster for,
//! and what the answers make of it. The window performs each request and
//! hands the outcome back.
use vstd::prelude::*;
use crate::client::{AclEntry, ConsumeRequest, ProduceRecord};
use crate::docs::DocKind;
use crate::rows::{
    config_assignment, csv_header, csv_lines, filter_records, i32_or_zero, matching_records,
    parse_i32_or_zero, partition_request, records_csv, topic_acl,
};
use crate::stream::{ConsumedRecord, StreamEvent};
use crate::text::{is_blank, is_blank_str, split_once, to_owned_string};

verus! {

/// What a pane's status line says.
#[derive(Clone, Debug)]
pub enum PaneStatus {
    /// Nothing yet.
    Blank,
    NotConnected,
    Loading,
    /// This many rows are shown.
    Rows(usize),
    Sending,
    Produced,
    Created,
    Deleted,
    Streaming,
    Copied,
    /// A message: the text of an error, or a hint about the input.
    Text(String),
}

/// A configuration change that a pane asks for.
#[derive(Clone, Debug)]
pub enum ConfigChange {
    /// Set a key of the broker with this id.
    Broker(i32, String, String),
    /// Set a key of the named topic.
    Topic(String, String, String),
}

/// The state of a document pane.
#[derive(Debug)]
pub struct PaneState {
    pub kind: DocKind,
    pub payload: Option<String>,
    /// The session's cluster is connected.
    pub connected: bool,
    pub status: PaneStatus,
    /// The records consumed so far.
    pub records: Vec<ConsumedRecord>,
    pub from_beginning: bool,
    pub commit: bool,
    /// A stream is running.
    pub streaming: bool,
    /// The number of the latest load; an answer to an earlier one is dropped.
    pub load_gen: u64,
}

/// `u64::saturating_add(1)`.
pub open spec fn sat_inc(g: u64) -> u64 {
    if g < u64::MAX {
        (g + 1) as u64
    } else {
        g
    }
}

/// The pane with another status line.
pub open spec fn with_status(p: PaneState, s: PaneStatus) -> PaneState {
    PaneState { status: s, ..p }
}

/// The pane once it starts loading: connected, a new load number and
/// `Loading`; without a connection it says so and loads nothing.
pub open spec fn refreshed(p: PaneState) -> PaneState {
    if p.connected {
        PaneState { status: PaneStatus::Loading, load_gen: sat_inc(p.load_gen), ..p }
    } else {
        with_status(p, PaneStatus::NotConnected)
    }
}

/// The number of the load that starts, where one does.
pub open spec fn refresh_ticket(p: PaneState) -> Option<u64> {
    if p.connected {
        Some(sat_inc(p.load_gen))
    } else {
        None
    }
}

/// The status after a request: the given one on success, the error's text
/// otherwise.
pub open spec fn outcome_status(result: Result<(), String>, ok: PaneStatus) -> PaneStatus {
    match result {
        Ok(()) => ok,
        Err(e) => PaneStatus::Text(e),
    }
}

/// The status after a load: the number of rows, or the error's text.
pub open spec fn rows_status(result: Result<usize, String>) -> PaneStatus {
    match result {
        Ok(n) => PaneStatus::Rows(n),
        Err(e) => PaneStatus::Text(e),
    }
}

/// The request of a one-off poll or a stream.
pub open spec fn consume_request_of(
    q: ConsumeRequest,
    topic: String,
    group: String,
    from_beginning: bool,
    commit: bool,
    max: usize,
) -> bool {
    q.topic == topic && q.group == group && q.from_beginning == from_beginning && q.commit == commit
        && q.max_messages == max
}

/// Once a pane has started a newer load, the answer to the older one no
/// longer matches its load number, so `rows_loaded` drops it; this holds
/// until the load numbers saturate at `u64::MAX`.
pub proof fn lemma_stale_answer_dropped(p: PaneState)
    requires
        p.connected,
        p.load_gen < u64::MAX - 1,
    ensures
        refresh_ticket(p) matches Some(t) && t != refreshed(refreshed(p)).load_gen,
        refresh_ticket(refreshed(p)) == Some(refreshed(refreshed(p)).load_gen),
{
}

/// The error of a registry operation on a cluster without a registry.
pub fn no_schema_registry() -> (r: String)
    ensures
        r@ == "no schema registry"@,
{
    to_owned_string("no schema registry")
}

impl PaneState {
    /// Starts a load: with a connection, a new load number and `Loading`;
    /// without one, the status says so and nothing is loaded.
    pub fn refresh(&mut self) -> (ticket: Option<u64>)
        ensures
            *final(self) == refreshed(*old(self)),
            ticket == refresh_ticket(*old(self)),
    {
        if self.connected {
            self.load_gen = self.load_gen.saturating_add(1);
            self.status = PaneStatus::Loading;
            Some(self.load_gen)
        } else {
            self.status = PaneStatus::NotConnected;
            None
        }
    }

    /// A new pane of a kind; it starts loading where its cluster is
    /// connected.
    pub fn new(kind: DocKind, payload: Option<String>, connected: bool) -> (r: (PaneState, Option<u64>))
        ensures
            r.0.kind == kind,
            r.0.payload == payload,
            r.0.connected == connected,
            r.0.records@.len() == 0,
            !r.0.from_beginning && !r.0.commit && !r.0.streaming,
            connected ==> r.0.status == PaneStatus::Loading && r.0.load_gen == 1 && r.1 == Some(1u64),
            !connected ==> r.0.status == PaneStatus::NotConnected && r.0.load_gen == 0 && r.1 is None,
    {
        let mut p = PaneState {
            kind,
            payload,
            connected,
            status: PaneStatus::Blank,
            records: Vec::new(),
            from_beginning: false,
            commit: false,
            streaming: false,
            load_gen: 0,
        };
        let ticket = p.refresh();
        (p, ticket)
    }

    /// The cluster got connected: the pane loads.
    pub fn attach(&mut self) -> (ticket: Option<u64>)
        ensures
            *final(self) == refreshed(PaneState { connected: true, ..*old(self) }),
            ticket == Some(sat_inc(old(self).load_gen)),
    {
        self.connected = true;
        self.refresh()
    }

    /// Connecting failed: the status shows why.
    pub fn fail(&mut self, message: String)
        ensures
            *final(self) == with_status(*old(self), PaneStatus::Text(message)),
    {
        self.status = PaneStatus::Text(message);
    }

    /// The answer to a load: shown where it answers the latest load, and
    /// dropped otherwise.
    pub fn rows_loaded(&mut self, ticket: u64, result: Result<usize, String>) -> (applied: bool)
        ensures
            applied == (ticket == old(self).load_gen),
            applied ==> *final(self) == with_status(*old(self), rows_status(result)),
            !applied ==> *final(self) == *old(self),
    {
        if ticket != self.load_gen {
            return false;
        }
        self.status = match result {
            Ok(n) => PaneStatus::Rows(n),
            Err(e) => PaneStatus::Text(e),
        };
        true
    }

    /// The topic that the pane works on: the producer and consumer pick it
    /// from a list (none picked means an empty name), the others type it.
    pub fn topic_name(&self, picked: Option<String>, typed: String) -> (r: String)
        ensures
            (self.kind == DocKind::Consumer || self.kind == DocKind::Producer) ==> match picked {
                Some(t) => r == t,
                None => r@.len() == 0,
            },
            !(self.kind == DocKind::Consumer || self.kind == DocKind::Producer) ==> r == typed,
    {
        match self.kind {
            DocKind::Consumer | DocKind::Producer => match picked {
                Some(t) => t,
                None => String::new(),
            },
            _ => typed,
        }
    }

    /// What to produce: the record once, to any partition, without headers
    /// or compression; the status says it is being sent. Without a
    /// connection nothing is sent.
    pub fn produce_request(&mut self, topic: String, key: String, value: String) -> (r: Option<ProduceRecord>)
        ensures
            !old(self).connected ==> r is None && *final(self) == with_status(*old(self), PaneStatus::NotConnected),
            old(self).connected ==> {
                &&& *final(self) == with_status(*old(self), PaneStatus::Sending)
                &&& r matches Some(rec)
                &&& rec.topic == topic && rec.key == key && rec.value == value
                &&& rec.partition is None && rec.headers@.len() == 0 && rec.count == 1
                &&& rec.compression@.len() == 0
            },
    {
        if !self.connected {
            self.status = PaneStatus::NotConnected;
            return None;
        }
        self.status = PaneStatus::Sending;
        Some(
            ProduceRecord {
                topic,
                key,
                value,
                partition: None,
                headers: Vec::new(),
                count: 1,
                compression: String::new(),
            },
        )
    }

    /// How producing (or replaying) ended.
    pub fn produced(&mut self, result: Result<(), String>)
        ensures
            *final(self) == with_status(*old(self), outcome_status(result, PaneStatus::Produced)),
    {
        self.status = match result {
            Ok(()) => PaneStatus::Produced,
            Err(e) => PaneStatus::Text(e),
        };
    }

    /// A one-off poll of up to 50 records from where the pane's switch says.
    /// Without a connection nothing is polled.
    pub fn poll_request(&mut self, topic: String, group: String) -> (r: Option<ConsumeRequest>)
        ensures
            !old(self).connected ==> r is None && *final(self) == with_status(*old(self), PaneStatus::NotConnected),
            old(self).connected ==> *final(self) == *old(self),
            old(self).connected ==> (r matches Some(q) && consume_request_of(
                q,
                topic,
                group,
                old(self).from_beginning,
                old(self).commit,
                50,
            )),
    {
        if !self.connected {
            self.status = PaneStatus::NotConnected;
            return None;
        }
        Some(
            ConsumeRequest {
                topic,
                group,
                from_beginning: self.from_beginning,
                max_messages: 50,
                commit: self.commit,
            },
        )
    }

    /// The answer to a poll: its records replace the pane's, and the status
    /// counts them; an error only changes the status.
    pub fn polled(&mut self, result: Result<Vec<ConsumedRecord>, String>)
        ensures
            match result {
                Ok(rows) => *final(self) == (PaneState {
                    records: rows,
                    status: PaneStatus::Rows(rows@.len() as usize),
                    ..*old(self)
                }),
                Err(e) => *final(self) == with_status(*old(self), PaneStatus::Text(e)),
            },
    {
        match result {
            Ok(rows) => {
                let n = rows.len();
                self.records = rows;
                self.status = PaneStatus::Rows(n);
            },
            Err(e) => {
                self.status = PaneStatus::Text(e);
            },
        }
    }

    /// A stream of up to 10000 records from where the pane's switch says;
    /// none without a connection.
    pub fn stream_request(&self, topic: String, group: String) -> (r: Option<ConsumeRequest>)
        ensures
            !self.connected ==> r is None,
            self.connected ==> (r matches Some(q) && consume_request_of(
                q,
                topic,
                group,
                self.from_beginning,
                self.commit,
                10000,
            )),
    {
        if !self.connected {
            return None;
        }
        Some(
            ConsumeRequest {
                topic,
                group,
                from_beginning: self.from_beginning,
                max_messages: 10000,
                commit: self.commit,
            },
        )
    }

    /// How starting a stream ended: it runs, or the status shows why not.
    pub fn stream_started(&mut self, result: Result<(), String>)
        ensures
            result is Ok ==> *final(self) == (PaneState {
                streaming: true,
                status: PaneStatus::Streaming,
                ..*old(self)
            }),
            result matches Err(e) ==> *final(self) == with_status(*old(self), PaneStatus::Text(e)),
    {
        match result {
            Ok(()) => {
                self.streaming = true;
                self.status = PaneStatus::Streaming;
            },
            Err(e) => {
                self.status = PaneStatus::Text(e);
            },
        }
    }

    /// What a running stream reported: a record is added, an error shown,
    /// the end stops the stream. Returns whether to keep listening; a pane
    /// without a stream takes nothing.
    pub fn stream_event(&mut self, ev: StreamEvent) -> (more: bool)
        ensures
            !old(self).streaming ==> !more && *final(self) == *old(self),
            old(self).streaming ==> match ev {
                StreamEvent::Message(rec) => more && final(self).records@ == old(self).records@.push(rec)
                    && *final(self) == (PaneState { records: final(self).records, ..*old(self) }),
                StreamEvent::Error(e) => more && *final(self) == with_status(*old(self), PaneStatus::Text(e)),
                StreamEvent::Ended => !more && *final(self) == (PaneState { streaming: false, ..*old(self) }),
            },
    {
        if !self.streaming {
            return false;
        }
        match ev {
            StreamEvent::Message(rec) => {
                self.records.push(rec);
                true
            },
            StreamEvent::Error(e) => {
                self.status = PaneStatus::Text(e);
                true
            },
            StreamEvent::Ended => {
                self.streaming = false;
                false
            },
        }
    }

    /// Stops the stream.
    pub fn stop_stream(&mut self)
        ensures
            *final(self) == (PaneState { streaming: false, ..*old(self) }),
    {
        self.streaming = false;
    }

    /// Flips whether reading starts from the beginning.
    pub fn toggle_from_beginning(&mut self)
        ensures
            *final(self) == (PaneState { from_beginning: !old(self).from_beginning, ..*old(self) }),
    {
        self.from_beginning = !self.from_beginning;
    }

    /// Flips whether consumed offsets are committed.
    pub fn toggle_commit(&mut self)
        ensures
            *final(self) == (PaneState { commit: !old(self).commit, ..*old(self) }),
    {
        self.commit = !self.commit;
    }

    /// The topic to create, delete or empty: the typed name, where the pane
    /// is connected and the name is not blank.
    pub fn named_topic(&self, name: &str) -> (r: Option<String>)
        ensures
            (self.connected && !is_blank(name@)) ==> (r matches Some(t) && t@ == name@),
            !(self.connected && !is_blank(name@)) ==> r is None,
    {
        if self.connected && !is_blank_str(name) {
            Some(to_owned_string(name))
        } else {
            None
        }
    }

    /// The topic and partition count to grow it to; a blank topic or a
    /// count that is not a positive `i32` is refused with a hint.
    pub fn partitions_request(&mut self, name: &str, count: &str) -> (r: Option<(String, i32)>)
        ensures
            !old(self).connected ==> r is None && *final(self) == *old(self),
            old(self).connected && !is_blank(name@) && i32_or_zero(count@) > 0 ==> {
                &&& *final(self) == *old(self)
                &&& r matches Some((t, n)) && t@ == name@ && n == i32_or_zero(count@)
            },
            old(self).connected && !(!is_blank(name@) && i32_or_zero(count@) > 0) ==> {
                &&& r is None
                &&& final(self).status matches PaneStatus::Text(m) && m@
                    == "topic and partition count required"@
                &&& *final(self) == with_status(*old(self), final(self).status)
            },
    {
        if !self.connected {
            return None;
        }
        match partition_request(name, count) {
            Ok(p) => Some(p),
            Err(m) => {
                self.status = PaneStatus::Text(m);
                None
            },
        }
    }

    /// The change that a `key=value` setting asks for: of the broker whose
    /// id is the typed name (0 where it is not a number) on the brokers
    /// pane, of the named topic elsewhere. A setting without `=` is refused
    /// with a hint.
    pub fn config_request(&mut self, name: &str, setting: &str) -> (r: Option<ConfigChange>)
        ensures
            !old(self).connected ==> r is None && *final(self) == *old(self),
            old(self).connected ==> match split_once(setting@, '=') {
                None => {
                    &&& r is None
                    &&& final(self).status matches PaneStatus::Text(m) && m@
                        == "use extra field as key=value"@
                    &&& *final(self) == with_status(*old(self), final(self).status)
                },
                Some((k, v)) => {
                    &&& *final(self) == *old(self)
                    &&& if old(self).kind == DocKind::Nodes {
                        r matches Some(ConfigChange::Broker(id, key, value)) && id == i32_or_zero(
                            name@,
                        ) && key@ == k && value@ == v
                    } else {
                        r matches Some(ConfigChange::Topic(t, key, value)) && t@ == name@ && key@
                            == k && value@ == v
                    }
                },
            },
    {
        if !self.connected {
            return None;
        }
        match config_assignment(setting) {
            None => {
                self.status = PaneStatus::Text(to_owned_string("use extra field as key=value"));
                None
            },
            Some((key, value)) => {
                if self.kind == DocKind::Nodes {
                    Some(ConfigChange::Broker(parse_i32_or_zero(name), key, value))
                } else {
                    Some(ConfigChange::Topic(to_owned_string(name), key, value))
                }
            },
        }
    }

    /// The group, topic and direction of an offset reset: back to the start
    /// where the pane reads from the beginning, else to the end.
    pub fn reset_request(&self, group: String, topic: String) -> (r: Option<(String, String, bool)>)
        ensures
            !self.connected ==> r is None,
            self.connected ==> r == Some((group, topic, self.from_beginning)),
    {
        if self.connected {
            Some((group, topic, self.from_beginning))
        } else {
            None
        }
    }

    /// The group to delete: the typed one, where it is not blank.
    pub fn group_to_delete(&self, group: &str) -> (r: Option<String>)
        ensures
            (self.connected && !is_blank(group@)) ==> (r matches Some(g) && g@ == group@),
            !(self.connected && !is_blank(group@)) ==> r is None,
    {
        if self.connected && !is_blank_str(group) {
            Some(to_owned_string(group))
        } else {
            None
        }
    }

    /// The topic to replay the consumed records to: the typed one, where it
    /// is not blank and there are records.
    pub fn replay_target(&self, dest: &str) -> (r: Option<String>)
        ensures
            (self.connected && !is_blank(dest@) && self.records@.len() > 0) ==> (r matches Some(d)
                && d@ == dest@),
            !(self.connected && !is_blank(dest@) && self.records@.len() > 0) ==> r is None,
    {
        if self.connected && !is_blank_str(dest) && self.records.len() > 0 {
            Some(to_owned_string(dest))
        } else {
            None
        }
    }

    /// The access rule to create or delete: everything allowed to the typed
    /// principal on the typed topic, from any host.
    pub fn acl_request(&self, principal: String, resource: String) -> (r: Option<AclEntry>)
        ensures
            !self.connected ==> r is None,
            self.connected ==> (r matches Some(a) && {
                &&& a.principal == principal && a.resource_name == resource
                &&& a.host@ == "*"@ && a.operation@ == "All"@ && a.permission@ == "Allow"@
                &&& a.resource_type@ == "Topic"@
            }),
    {
        if self.connected {
            Some(topic_acl(principal, resource))
        } else {
            None
        }
    }

    /// How an administrative request ended: the status says so, and where
    /// asked the pane loads again (its `Loading` then replaces that status).
    pub fn finished(&mut self, result: Result<(), String>, ok: PaneStatus, reload: bool) -> (ticket: Option<u64>)
        ensures
            reload ==> *final(self) == refreshed(with_status(*old(self), outcome_status(result, ok)))
                && ticket == refresh_ticket(*old(self)),
            !reload ==> *final(self) == with_status(*old(self), outcome_status(result, ok))
                && ticket is None,
    {
        self.status = match result {
            Ok(()) => ok,
            Err(e) => PaneStatus::Text(e),
        };
        if reload {
            self.refresh()
        } else {
            None
        }
    }

    /// The consumed records as CSV, for the clipboard.
    pub fn export_csv(&mut self) -> (r: String)
        ensures
            r@ == csv_header() + csv_lines(old(self).records@),
            *final(self) == with_status(*old(self), PaneStatus::Copied),
    {
        let csv = records_csv(&self.records);
        self.status = PaneStatus::Copied;
        csv
    }

    /// Something was copied to the clipboard.
    pub fn copied(&mut self)
        ensures
            *final(self) == with_status(*old(self), PaneStatus::Copied),
    {
        self.status = PaneStatus::Copied;
    }

    /// The consumed records that pass the search, with the status counting
    /// them; the pane keeps all its records.
    pub fn search(&mut self, query: &str) -> (r: Vec<ConsumedRecord>)
        ensures
            r@ == matching_records(old(self).records@, query@),
            *final(self) == with_status(*old(self), PaneStatus::Rows(r@.len() as usize)),
    {
        let found = filter_records(&self.records, query);
        self.status = PaneStatus::Rows(found.len());
        found
    }
}

} // verus!
