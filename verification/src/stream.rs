//! Consumed records, and the caps on a running stream.
use vstd::prelude::*;
use crate::error::Error;
use crate::text::{join, lossy_utf8, utf8_lossy, to_owned_string};

verus! {

/// The most records that one stream delivers.
pub const STREAM_MAX_MESSAGES: usize = 10000;

/// The most payload bytes that one stream delivers (200 MiB).
pub const STREAM_MAX_BYTES: usize = 209715200;

/// A record as the client shows it.
#[derive(Clone, Debug)]
pub struct ConsumedRecord {
    pub topic: String,
    pub partition: i32,
    pub offset: i64,
    pub timestamp_ms: Option<i64>,
    pub key: String,
    pub value: String,
    pub headers: String,
    pub bytes: usize,
}

/// What a stream reports.
#[derive(Debug)]
pub enum StreamEvent {
    Message(ConsumedRecord),
    Error(String),
    Ended,
}

/// The timestamp that a message carries.
#[derive(Clone, Copy, Debug, PartialEq, Eq, Structural)]
pub enum MessageTimestamp {
    NotAvailable,
    CreateTime(i64),
    LogAppendTime(i64),
}

/// A header of a message.
#[derive(Clone, Debug)]
pub struct RawHeader {
    pub key: String,
    pub value: Option<Vec<u8>>,
}

/// A message as the broker delivered it.
#[derive(Clone, Debug)]
pub struct RawMessage {
    pub topic: String,
    pub partition: i32,
    pub offset: i64,
    pub timestamp: MessageTimestamp,
    pub key: Option<Vec<u8>>,
    pub payload: Option<Vec<u8>>,
    pub headers: Option<Vec<RawHeader>>,
}

/// Optional bytes, empty where absent.
pub open spec fn bytes_or_empty(b: Option<Vec<u8>>) -> Seq<u8> {
    match b {
        Some(v) => v@,
        None => Seq::empty(),
    }
}

/// A header as `key=value`, the value read as UTF-8.
pub open spec fn header_text(h: RawHeader) -> Seq<char> {
    h.key@ + "="@ + lossy_utf8(bytes_or_empty(h.value))
}

/// The headers of a message as the client shows them: `key=value` entries
/// joined by commas, empty without headers.
pub open spec fn headers_text(h: Option<Vec<RawHeader>>) -> Seq<char> {
    match h {
        Some(v) => join(v@.map_values(|x: RawHeader| header_text(x)), ","@),
        None => Seq::empty(),
    }
}

/// The milliseconds of a timestamp, where it has them.
pub open spec fn timestamp_millis(t: MessageTimestamp) -> Option<i64> {
    match t {
        MessageTimestamp::NotAvailable => None,
        MessageTimestamp::CreateTime(ms) => Some(ms),
        MessageTimestamp::LogAppendTime(ms) => Some(ms),
    }
}

fn bytes_view(b: &Option<Vec<u8>>) -> (r: &[u8])
    ensures
        r@ == bytes_or_empty(*b),
{
    match b {
        Some(v) => v.as_slice(),
        None => &[],
    }
}

fn format_headers(hs: &Vec<RawHeader>) -> (r: String)
    ensures
        r@ == join(hs@.map_values(|x: RawHeader| header_text(x)), ","@),
{
    let ghost parts = hs@.map_values(|x: RawHeader| header_text(x));
    let mut out = String::new();
    let mut i: usize = 0;
    while i < hs.len()
        invariant
            i <= hs.len(),
            parts == hs@.map_values(|x: RawHeader| header_text(x)),
            out@ == join(parts.subrange(0, i as int), ","@),
        decreases hs.len() - i,
    {
        let h = &hs[i];
        let mut piece = h.key.clone();
        piece.append("=");
        piece.append(utf8_lossy(bytes_view(&h.value)).as_str());
        assert(piece@ == parts[i as int]);
        if i > 0 {
            out.append(",");
        }
        out.append(piece.as_str());
        proof {
            let p = parts.subrange(0, i + 1);
            assert(p.drop_last() =~= parts.subrange(0, i as int));
            assert(out@ =~= join(p, ","@));
        }
        i = i + 1;
    }
    assert(parts.subrange(0, hs.len() as int) =~= parts);
    out
}

/// A consumed record from a message: the key read as UTF-8 (empty without
/// one), the payload rendered by `decode` (an empty payload where there is
/// none), the headers as `key=value` entries joined by commas, the
/// timestamp's milliseconds where it has them, and the payload's size.
pub fn record_from_message<F: Fn(&[u8]) -> String>(msg: &RawMessage, decode: F) -> (r: ConsumedRecord)
    requires
        forall|b: &[u8]| call_requires(decode, (b,)),
    ensures
        r.topic == msg.topic,
        r.partition == msg.partition,
        r.offset == msg.offset,
        r.timestamp_ms == timestamp_millis(msg.timestamp),
        r.key@ == match msg.key {
            Some(k) => lossy_utf8(k@),
            None => Seq::empty(),
        },
        exists|raw: &[u8]| raw@ == bytes_or_empty(msg.payload) && call_ensures(decode, (raw,), r.value),
        r.headers@ == headers_text(msg.headers),
        r.bytes == bytes_or_empty(msg.payload).len(),
{
    let key = match &msg.key {
        Some(k) => utf8_lossy(k.as_slice()),
        None => String::new(),
    };
    let raw = bytes_view(&msg.payload);
    let value = decode(raw);
    let headers = match &msg.headers {
        Some(hs) => format_headers(hs),
        None => String::new(),
    };
    let timestamp_ms = match msg.timestamp {
        MessageTimestamp::NotAvailable => None,
        MessageTimestamp::CreateTime(ms) => Some(ms),
        MessageTimestamp::LogAppendTime(ms) => Some(ms),
    };
    ConsumedRecord {
        topic: msg.topic.clone(),
        partition: msg.partition,
        offset: msg.offset,
        timestamp_ms,
        key,
        value,
        headers,
        bytes: raw.len(),
    }
}

/// How a payload is shown: the registry's rendering where there is a
/// registry and it succeeded, otherwise the bytes read as UTF-8.
pub fn payload_text(rendered: Option<Result<String, Error>>, bytes: &[u8]) -> (r: String)
    ensures
        match rendered {
            Some(Ok(t)) => r == t,
            _ => r@ == lossy_utf8(bytes@),
        },
{
    match rendered {
        Some(Ok(t)) => t,
        _ => utf8_lossy(bytes),
    }
}

/// What a stream has delivered so far.
pub struct StreamTally {
    messages: usize,
    bytes: usize,
}

/// What to do with the next record of a stream.
#[derive(Debug)]
pub enum StreamStep {
    /// Hand the record on.
    Deliver,
    /// Stop, with this message.
    CapReached(String),
}

impl StreamTally {
    /// The records delivered.
    pub closed spec fn delivered(&self) -> nat {
        self.messages as nat
    }

    /// The payload bytes delivered.
    pub closed spec fn delivered_bytes(&self) -> nat {
        self.bytes as nat
    }

    /// A stream never delivers more than its caps.
    #[verifier::type_invariant]
    closed spec fn within_caps(self) -> bool {
        self.messages <= STREAM_MAX_MESSAGES && self.bytes <= STREAM_MAX_BYTES
    }

    /// Nothing delivered yet.
    pub fn new() -> (t: StreamTally)
        ensures
            t.delivered() == 0,
            t.delivered_bytes() == 0,
    {
        StreamTally { messages: 0, bytes: 0 }
    }

    /// Counts the next record: it is delivered while the stream stays within
    /// 10000 records and 200 MiB, and the tally grows by it; otherwise the
    /// stream stops with a message and the tally stays.
    pub fn count_record(&mut self, record_bytes: usize) -> (step: StreamStep)
        requires
            record_bytes <= usize::MAX - STREAM_MAX_BYTES,
        ensures
            (old(self).delivered() + 1 <= STREAM_MAX_MESSAGES && old(self).delivered_bytes()
                + record_bytes <= STREAM_MAX_BYTES) <==> step is Deliver,
            step is Deliver ==> final(self).delivered() == old(self).delivered() + 1
                && final(self).delivered_bytes() == old(self).delivered_bytes() + record_bytes,
            step matches StreamStep::CapReached(m) ==> {
                &&& m@ == "stream cap reached (10000 messages or 200MB)"@
                &&& final(self).delivered() == old(self).delivered()
                &&& final(self).delivered_bytes() == old(self).delivered_bytes()
            },
            final(self).delivered() <= STREAM_MAX_MESSAGES,
            final(self).delivered_bytes() <= STREAM_MAX_BYTES,
    {
        proof {
            use_type_invariant(&*self);
        }
        let n = self.messages + 1;
        let b = self.bytes + record_bytes;
        if n > STREAM_MAX_MESSAGES || b > STREAM_MAX_BYTES {
            StreamStep::CapReached(to_owned_string("stream cap reached (10000 messages or 200MB)"))
        } else {
            self.messages = n;
            self.bytes = b;
            StreamStep::Deliver
        }
    }
}

/// What one poll of a stream's consumer gave.
#[derive(Debug)]
pub enum Polled {
    /// No message within the poll's wait.
    Nothing,
    /// The consumer failed, with this text.
    Failed(String),
    /// A message, as a consumed record.
    Record(ConsumedRecord),
}

/// The number of records among the events.
pub open spec fn message_count(evs: Seq<StreamEvent>) -> nat
    decreases evs.len(),
{
    if evs.len() == 0 {
        0
    } else {
        message_count(evs.drop_last()) + if evs.last() is Message {
            1nat
        } else {
            0nat
        }
    }
}

/// The payload bytes of the records among the events.
pub open spec fn message_bytes(evs: Seq<StreamEvent>) -> nat
    decreases evs.len(),
{
    if evs.len() == 0 {
        0
    } else {
        message_bytes(evs.drop_last()) + match evs.last() {
            StreamEvent::Message(rec) => rec.bytes as nat,
            _ => 0nat,
        }
    }
}

/// The events end with `Ended`.
pub open spec fn has_ended(evs: Seq<StreamEvent>) -> bool {
    evs.len() > 0 && evs.last() is Ended
}

/// `Ended` comes, if at all, last.
pub open spec fn ends_last(evs: Seq<StreamEvent>) -> bool {
    forall|i: int| 0 <= i < evs.len() - 1 ==> !(#[trigger] evs[i] is Ended)
}

/// Every `Error` is directly followed by `Ended`.
pub open spec fn error_then_end(evs: Seq<StreamEvent>) -> bool {
    forall|i: int|
        0 <= i < evs.len() && (#[trigger] evs[i]) is Error ==> i + 1 < evs.len() && evs[i + 1] is Ended
}

/// What a stream may send: at most 10000 records, at most 200 MiB of
/// payload, and nothing after `Ended`.
pub open spec fn within_stream_caps(evs: Seq<StreamEvent>) -> bool {
    &&& message_count(evs) <= STREAM_MAX_MESSAGES
    &&& message_bytes(evs) <= STREAM_MAX_BYTES
    &&& ends_last(evs)
}

proof fn lemma_counts_append(a: Seq<StreamEvent>, b: Seq<StreamEvent>)
    ensures
        message_count(a + b) == message_count(a) + message_count(b),
        message_bytes(a + b) == message_bytes(a) + message_bytes(b),
    decreases b.len(),
{
    if b.len() == 0 {
        assert(a + b =~= a);
    } else {
        lemma_counts_append(a, b.drop_last());
        assert((a + b).drop_last() =~= a + b.drop_last());
    }
}

/// A running stream's decisions: what to send for each poll, and the
/// history of everything sent.
pub struct StreamRun {
    tally: StreamTally,
    ended: bool,
    sent: Ghost<Seq<StreamEvent>>,
}

impl View for StreamRun {
    type V = Seq<StreamEvent>;

    /// Every event sent so far.
    closed spec fn view(&self) -> Seq<StreamEvent> {
        self.sent@
    }
}

impl StreamRun {
    /// The tally counts what was sent, within the caps, and the stream has
    /// ended exactly when its last event is `Ended`.
    pub closed spec fn wf(&self) -> bool {
        &&& message_count(self.sent@) == self.tally.delivered()
        &&& message_bytes(self.sent@) == self.tally.delivered_bytes()
        &&& self.tally.delivered() <= STREAM_MAX_MESSAGES
        &&& self.tally.delivered_bytes() <= STREAM_MAX_BYTES
        &&& self.ended == has_ended(self.sent@)
        &&& ends_last(self.sent@)
        &&& error_then_end(self.sent@)
    }

    /// A stream that has sent nothing.
    pub fn new() -> (r: StreamRun)
        ensures
            r.wf(),
            r@ == Seq::<StreamEvent>::empty(),
    {
        StreamRun { tally: StreamTally::new(), ended: false, sent: Ghost(Seq::empty()) }
    }

    /// What to send for a poll: nothing for an empty poll or once ended; a
    /// failure's text and then the end; a record while the stream stays
    /// within 10000 records and 200 MiB, otherwise the cap message and then
    /// the end.
    pub fn step(&mut self, polled: Polled) -> (out: Vec<StreamEvent>)
        requires
            old(self).wf(),
            polled matches Polled::Record(rec) ==> rec.bytes <= usize::MAX - STREAM_MAX_BYTES,
        ensures
            final(self).wf(),
            final(self)@ == old(self)@ + out@,
            has_ended(old(self)@) ==> out@.len() == 0,
            !has_ended(old(self)@) ==> match polled {
                Polled::Nothing => out@.len() == 0,
                Polled::Failed(e) => out@ == seq![StreamEvent::Error(e), StreamEvent::Ended],
                Polled::Record(rec) => if message_count(old(self)@) + 1 <= STREAM_MAX_MESSAGES
                    && message_bytes(old(self)@) + rec.bytes <= STREAM_MAX_BYTES {
                    out@ == seq![StreamEvent::Message(rec)]
                } else {
                    &&& out@.len() == 2
                    &&& out@[0] matches StreamEvent::Error(t)
                    &&& t@ == "stream cap reached (10000 messages or 200MB)"@
                    &&& out@[1] is Ended
                },
            },
    {
        let ghost before = self.sent@;
        let mut out: Vec<StreamEvent> = Vec::new();
        if self.ended {
            assert(out@ =~= Seq::<StreamEvent>::empty());
            assert(before + out@ =~= before);
            return out;
        }
        match polled {
            Polled::Nothing => {},
            Polled::Failed(e) => {
                out.push(StreamEvent::Error(e));
                out.push(StreamEvent::Ended);
                self.ended = true;
            },
            Polled::Record(rec) => {
                let size = rec.bytes;
                match self.tally.count_record(size) {
                    StreamStep::Deliver => {
                        out.push(StreamEvent::Message(rec));
                    },
                    StreamStep::CapReached(m) => {
                        out.push(StreamEvent::Error(m));
                        out.push(StreamEvent::Ended);
                        self.ended = true;
                    },
                }
            },
        }
        proof {
            self.sent = Ghost(before + out@);
            lemma_counts_append(before, out@);
            reveal_with_fuel(message_count, 3);
            reveal_with_fuel(message_bytes, 3);
            let o = out@;
            if o.len() == 1 {
                assert(o.drop_last() =~= Seq::<StreamEvent>::empty());
            } else if o.len() == 2 {
                assert(o.drop_last().drop_last() =~= Seq::<StreamEvent>::empty());
            } else {
                assert(o =~= Seq::<StreamEvent>::empty());
            }
            let a = before + o;
            if o.len() > 0 {
                assert(a.last() == o.last());
            } else {
                assert(a =~= before);
            }
            assert forall|i: int| 0 <= i < a.len() - 1 implies !(#[trigger] a[i] is Ended) by {
                if i < before.len() {
                    assert(a[i] == before[i]);
                    if i == before.len() - 1 {
                        assert(!has_ended(before));
                    }
                } else {
                    assert(a[i] == o[i - before.len()]);
                }
            }
            assert forall|i: int| 0 <= i < a.len() && (#[trigger] a[i]) is Error implies i + 1 < a.len()
                && a[i + 1] is Ended by {
                if i < before.len() {
                    assert(a[i] == before[i]);
                    assert(a[i + 1] == before[i + 1]);
                } else {
                    assert(a[i] == o[i - before.len()]);
                    assert(i - before.len() == 0);
                    assert(a[i + 1] == o[1]);
                }
            }
        }
        out
    }

    /// The stream stops (it was asked to, or nobody listens any more):
    /// the end is sent unless it was already.
    pub fn finish(&mut self) -> (out: Vec<StreamEvent>)
        requires
            old(self).wf(),
        ensures
            final(self).wf(),
            final(self)@ == old(self)@ + out@,
            has_ended(old(self)@) ==> out@.len() == 0,
            !has_ended(old(self)@) ==> out@ == seq![StreamEvent::Ended],
    {
        let ghost before = self.sent@;
        let mut out: Vec<StreamEvent> = Vec::new();
        if !self.ended {
            out.push(StreamEvent::Ended);
            self.ended = true;
        }
        proof {
            self.sent = Ghost(before + out@);
            lemma_counts_append(before, out@);
            reveal_with_fuel(message_count, 3);
            reveal_with_fuel(message_bytes, 3);
            let o = out@;
            if o.len() == 1 {
                assert(o.drop_last() =~= Seq::<StreamEvent>::empty());
            } else {
                assert(o =~= Seq::<StreamEvent>::empty());
            }
            let a = before + o;
            if o.len() > 0 {
                assert(a.last() == o.last());
            } else {
                assert(a =~= before);
            }
            assert forall|i: int| 0 <= i < a.len() - 1 implies !(#[trigger] a[i] is Ended) by {
                if i < before.len() {
                    assert(a[i] == before[i]);
                }
            }
            assert forall|i: int| 0 <= i < a.len() && (#[trigger] a[i]) is Error implies i + 1 < a.len()
                && a[i + 1] is Ended by {
                if i < before.len() {
                    assert(a[i] == before[i]);
                    assert(a[i + 1] == before[i + 1]);
                } else {
                    assert(a[i] == o[i - before.len()]);
                }
            }
        }
        out
    }
}

/// Whatever a stream has sent holds at most 10000 records and 200 MiB of
/// payload, and nothing follows its end.
pub proof fn lemma_stream_caps(run: &StreamRun)
    requires
        run.wf(),
    ensures
        within_stream_caps(run@),
{
}

/// What a stream sends is records, then at most one `Error`, then at most
/// one `Ended`, which comes last: an `Error` stands just before the end,
/// and the end comes once.
pub proof fn lemma_stream_order(run: &StreamRun)
    requires
        run.wf(),
    ensures
        error_then_end(run@),
        forall|i: int| 0 <= i < run@.len() && (#[trigger] run@[i]) is Error ==> i == run@.len() - 2,
        forall|i: int| 0 <= i < run@.len() && (#[trigger] run@[i]) is Ended ==> i == run@.len() - 1,
        forall|i: int|
            0 <= i < run@.len() - 2 ==> (#[trigger] run@[i]) is Message,
{
    let s = run@;
    assert forall|i: int| 0 <= i < s.len() && (#[trigger] s[i]) is Error implies i == s.len() - 2 by {
        assert(s[i + 1] is Ended);
    }
    assert forall|i: int| 0 <= i < s.len() - 2 implies (#[trigger] s[i]) is Message by {
        if s[i] is Error {
            assert(s[i + 1] is Ended);
        }
    }
}

} // verus!
