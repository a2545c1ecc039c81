//! The open sessions of the workspace and the tabs of each session.
use vstd::prelude::*;
use crate::config::{ConnectionConfig, display_name_of};
use crate::connections::{has_id, lookup, first_with_id, position_of_id, lemma_first_exists, lemma_lookup_at};
use crate::docs::{DocKind, opens_new_tab, kind_name, kind_of_name, lemma_kind_name_roundtrip};
use crate::text::{str_eq, to_owned_string};

verus! {

/// Where a session's connection stands.
#[derive(Clone, Copy, Debug, PartialEq, Eq, Structural)]
pub enum SessionStatus {
    Idle,
    Connecting,
    Live,
}

/// A tab of a session.
#[derive(Debug)]
pub struct DocTab {
    pub kind: DocKind,
    pub payload: Option<String>,
}

/// An open cluster with its tabs.
#[derive(Debug)]
pub struct Session {
    pub connection_id: String,
    pub name: String,
    pub status: SessionStatus,
    pub error: Option<String>,
    pub tabs: Vec<DocTab>,
    pub active_tab: usize,
}

/// A session has a tab, and its active tab is one of them.
pub open spec fn session_ok(s: Session) -> bool {
    s.tabs@.len() > 0 && s.active_tab < s.tabs@.len()
}

/// Two sessions differ at most in their tabs and active tab.
pub open spec fn same_but_tabs(a: Session, b: Session) -> bool {
    &&& a.connection_id == b.connection_id
    &&& a.name == b.name
    &&& a.status == b.status
    &&& a.error == b.error
}

/// The active tab once the tab at `from` has moved to `to`: the moved tab
/// stays active where it was, and a tab between the two positions shifts by
/// one towards `from`.
pub open spec fn moved_index(active: int, from: int, to: int) -> int {
    if active == from {
        to
    } else if from < active && active <= to {
        active - 1
    } else if to <= active && active < from {
        active + 1
    } else {
        active
    }
}

/// The active tab once the tab at `ix` is closed, `len` tabs remaining.
pub open spec fn closed_index(active: int, ix: int, len: int) -> int {
    if active >= len {
        len - 1
    } else if active > ix {
        active - 1
    } else {
        active
    }
}

/// The active tab after a tab moves from `from` to `to`.
pub fn moved_active_index(active: usize, from: usize, to: usize) -> (r: usize)
    ensures
        r == moved_index(active as int, from as int, to as int),
{
    if active == from {
        to
    } else if from < active && active <= to {
        active - 1
    } else if to <= active && active < from {
        active + 1
    } else {
        active
    }
}

/// Moving a tab keeps the active tab on the same document.
pub proof fn lemma_move_keeps_active_tab(tabs: Seq<DocTab>, active: int, from: int, to: int)
    requires
        0 <= active < tabs.len(),
        0 <= from < tabs.len(),
        0 <= to < tabs.len(),
    ensures
        0 <= moved_index(active, from, to) < tabs.len(),
        tabs.remove(from).insert(to, tabs[from])[moved_index(active, from, to)] == tabs[active],
{
}

/// Closing a tab other than the active one keeps the active tab on the same
/// document.
pub proof fn lemma_close_keeps_active_tab(tabs: Seq<DocTab>, active: int, ix: int)
    requires
        0 <= active < tabs.len(),
        0 <= ix < tabs.len(),
        ix != active,
    ensures
        0 <= closed_index(active, ix, tabs.len() - 1) < tabs.len() - 1,
        tabs.remove(ix)[closed_index(active, ix, tabs.len() - 1)] == tabs[active],
{
}


/// Closing the active tab moves the focus to the tab that stood right of
/// it, or, where it was the last, to the one left of it.
pub proof fn lemma_close_active_tab(tabs: Seq<DocTab>, ix: int)
    requires
        0 <= ix < tabs.len(),
        tabs.len() > 1,
    ensures
        0 <= closed_index(ix, ix, tabs.len() - 1) < tabs.len() - 1,
        ix + 1 < tabs.len() ==> tabs.remove(ix)[closed_index(ix, ix, tabs.len() - 1)] == tabs[ix + 1],
        ix + 1 == tabs.len() ==> tabs.remove(ix)[closed_index(ix, ix, tabs.len() - 1)] == tabs[ix - 1],
{
}

/// What showing a document did to a session's tabs: a kind shown at most
/// once per session focuses the first tab of that kind where there is one;
/// otherwise the document is appended as a new tab. Either way its tab
/// becomes the active one.
pub open spec fn opened_doc(
    before: Seq<DocTab>,
    kind: DocKind,
    payload: Option<String>,
    r: DocOpen,
    after: Seq<DocTab>,
    active: int,
) -> bool {
    match r {
        DocOpen::Focused(ix) => {
            &&& !opens_new_tab(kind)
            &&& ix < before.len()
            &&& before[ix as int].kind == kind
            &&& forall|j: int| 0 <= j < ix ==> before[j].kind != kind
            &&& after == before
            &&& active == ix
        },
        DocOpen::Added(ix) => {
            &&& (opens_new_tab(kind) || forall|j: int| 0 <= j < before.len() ==> before[j].kind != kind)
            &&& ix == before.len()
            &&& after == before.push(DocTab { kind, payload })
            &&& active == ix
        },
        DocOpen::NoSession => false,
    }
}

/// Showing a document of a kind that is shown at most once per session a
/// second time changes nothing: the same tabs, the same active tab.
pub proof fn lemma_open_doc_twice(
    t0: Seq<DocTab>,
    kind: DocKind,
    p1: Option<String>,
    r1: DocOpen,
    t1: Seq<DocTab>,
    a1: int,
    p2: Option<String>,
    r2: DocOpen,
    t2: Seq<DocTab>,
    a2: int,
)
    requires
        !opens_new_tab(kind),
        opened_doc(t0, kind, p1, r1, t1, a1),
        opened_doc(t1, kind, p2, r2, t2, a2),
    ensures
        t2 == t1,
        a2 == a1,
{
    match r1 {
        DocOpen::Focused(i1) => {
            assert(t1[i1 as int].kind == kind);
            match r2 {
                DocOpen::Focused(i2) => {
                    if i2 < i1 {
                        assert(t0[i2 as int].kind != kind);
                    }
                    if i1 < i2 {
                        assert(t1[i1 as int].kind != kind);
                    }
                },
                _ => {},
            }
        },
        DocOpen::Added(i1) => {
            assert(t1[i1 as int].kind == kind);
            match r2 {
                DocOpen::Focused(i2) => {
                    if i2 < i1 {
                        assert(t1[i2 as int] == t0[i2 as int]);
                    }
                },
                _ => {},
            }
        },
        DocOpen::NoSession => {},
    }
}

/// Opening a producer or consumer always adds a tab of its own, at the
/// end, carrying the payload, and makes it active. Opening any other kind
/// focuses the first tab of that kind where there is one, leaving the tabs
/// as they are, and otherwise adds one at the end. Either way the active
/// tab shows the kind asked for.
pub proof fn lemma_open_doc_outcome(
    before: Seq<DocTab>,
    kind: DocKind,
    payload: Option<String>,
    r: DocOpen,
    after: Seq<DocTab>,
    active: int,
)
    requires
        opened_doc(before, kind, payload, r, after, active),
    ensures
        kind == DocKind::Producer || kind == DocKind::Consumer ==> {
            &&& r == DocOpen::Added(before.len() as usize)
            &&& after == before.push(DocTab { kind, payload })
            &&& active == before.len()
        },
        !(kind == DocKind::Producer || kind == DocKind::Consumer) && (exists|j: int|
            0 <= j < before.len() && before[j].kind == kind) ==> {
            &&& r is Focused
            &&& after == before
            &&& 0 <= active < before.len() && before[active].kind == kind
        },
        !(kind == DocKind::Producer || kind == DocKind::Consumer) && (forall|j: int|
            0 <= j < before.len() ==> before[j].kind != kind) ==> {
            &&& r == DocOpen::Added(before.len() as usize)
            &&& after == before.push(DocTab { kind, payload })
            &&& active == before.len()
        },
        0 <= active < after.len() && after[active].kind == kind,
{
    match r {
        DocOpen::Added(ix) => {
            assert(after[ix as int] == DocTab { kind, payload });
        },
        _ => {},
    }
}

impl Session {
    /// Makes the tab at `ix` active, where there is one.
    pub fn activate_tab(&mut self, ix: usize) -> (r: bool)
        ensures
            r == (ix < old(self).tabs@.len()),
            same_but_tabs(*final(self), *old(self)),
            final(self).tabs@ == old(self).tabs@,
            final(self).active_tab == if r {
                ix
            } else {
                old(self).active_tab
            },
    {
        if ix < self.tabs.len() {
            self.active_tab = ix;
            true
        } else {
            false
        }
    }

    /// Closes every tab but the one at `ix`, where there is such a tab and
    /// another one.
    pub fn close_other_tabs(&mut self, ix: usize) -> (r: bool)
        ensures
            r == (ix < old(self).tabs@.len() && old(self).tabs@.len() > 1),
            same_but_tabs(*final(self), *old(self)),
            r ==> final(self).tabs@ == seq![old(self).tabs@[ix as int]] && final(self).active_tab == 0,
            !r ==> final(self).tabs@ == old(self).tabs@ && final(self).active_tab == old(self).active_tab,
    {
        if ix >= self.tabs.len() || self.tabs.len() <= 1 {
            return false;
        }
        let keep = self.tabs.remove(ix);
        self.tabs.clear();
        self.tabs.push(keep);
        self.active_tab = 0;
        assert(self.tabs@ =~= seq![old(self).tabs@[ix as int]]);
        true
    }

    /// Closes the tabs right of `ix`, where there are any; the active tab
    /// moves to `ix` if it was among them.
    pub fn close_tabs_to_right(&mut self, ix: usize) -> (r: bool)
        requires
            ix < usize::MAX,
        ensures
            r == (ix + 1 < old(self).tabs@.len()),
            same_but_tabs(*final(self), *old(self)),
            r ==> final(self).tabs@ == old(self).tabs@.subrange(0, ix + 1) && final(self).active_tab
                == if old(self).active_tab > ix {
                ix
            } else {
                old(self).active_tab
            },
            !r ==> final(self).tabs@ == old(self).tabs@ && final(self).active_tab == old(self).active_tab,
    {
        if ix + 1 >= self.tabs.len() {
            return false;
        }
        self.tabs.truncate(ix + 1);
        if self.active_tab > ix {
            self.active_tab = ix;
        }
        true
    }

    /// Moves the tab at `from` to `to`, where both are tabs and differ; the
    /// active tab follows its document.
    pub fn move_tab(&mut self, from: usize, to: usize) -> (r: bool)
        ensures
            r == (from != to && from < old(self).tabs@.len() && to < old(self).tabs@.len()),
            same_but_tabs(*final(self), *old(self)),
            r ==> final(self).tabs@ == old(self).tabs@.remove(from as int).insert(
                to as int,
                old(self).tabs@[from as int],
            ) && final(self).active_tab == moved_index(old(self).active_tab as int, from as int, to as int),
            !r ==> final(self).tabs@ == old(self).tabs@ && final(self).active_tab == old(self).active_tab,
    {
        if from == to || from >= self.tabs.len() || to >= self.tabs.len() {
            return false;
        }
        let tab = self.tabs.remove(from);
        self.tabs.insert(to, tab);
        self.active_tab = moved_active_index(self.active_tab, from, to);
        true
    }

    /// Closes the tab at `ix`, where there is one, and returns whether it
    /// did; the active tab keeps its document, or falls to its right
    /// neighbour (the last tab at the end).
    pub fn close_tab(&mut self, ix: usize) -> (r: bool)
        ensures
            r == (ix < old(self).tabs@.len()),
            same_but_tabs(*final(self), *old(self)),
            r ==> final(self).tabs@ == old(self).tabs@.remove(ix as int),
            r && final(self).tabs@.len() > 0 ==> final(self).active_tab == closed_index(
                old(self).active_tab as int,
                ix as int,
                final(self).tabs@.len() as int,
            ),
            !r ==> final(self).tabs@ == old(self).tabs@ && final(self).active_tab == old(self).active_tab,
    {
        if ix >= self.tabs.len() {
            return false;
        }
        self.tabs.remove(ix);
        if self.tabs.len() > 0 {
            if self.active_tab >= self.tabs.len() {
                self.active_tab = self.tabs.len() - 1;
            } else if self.active_tab > ix {
                self.active_tab = self.active_tab - 1;
            }
        }
        true
    }

    /// Shows a document: a kind shown at most once per session focuses its
    /// existing tab; otherwise a new tab is added and made active.
    pub fn open_doc(&mut self, kind: DocKind, payload: Option<String>) -> (r: DocOpen)
        ensures
            same_but_tabs(*final(self), *old(self)),
            opened_doc(old(self).tabs@, kind, payload, r, final(self).tabs@, final(self).active_tab as int),
            kind == DocKind::Producer || kind == DocKind::Consumer ==> {
                &&& r == DocOpen::Added(old(self).tabs@.len() as usize)
                &&& final(self).tabs@ == old(self).tabs@.push(DocTab { kind, payload })
                &&& final(self).active_tab == old(self).tabs@.len()
            },
    {
        if !kind.opens_new_tab() {
            let mut i: usize = 0;
            while i < self.tabs.len()
                invariant
                    i <= self.tabs@.len(),
                    self.tabs@ == old(self).tabs@,
                    *self == *old(self),
                    !opens_new_tab(kind),
                    forall|j: int| 0 <= j < i ==> self.tabs@[j].kind != kind,
                decreases self.tabs@.len() - i,
            {
                if self.tabs[i].kind == kind {
                    self.active_tab = i;
                    return DocOpen::Focused(i);
                }
                i = i + 1;
            }
        }
        let ix = self.tabs.len();
        self.tabs.push(DocTab { kind, payload });
        self.active_tab = ix;
        DocOpen::Added(ix)
    }
}

/// What opening a document did.
#[derive(Clone, Copy, Debug, PartialEq, Eq, Structural)]
pub enum DocOpen {
    /// There is no active session.
    NoSession,
    /// An existing tab, at this position, became active.
    Focused(usize),
    /// A new tab was added at this position and became active.
    Added(usize),
}

/// The session is for this cluster.
pub open spec fn is_for(s: Session, id: Seq<char>) -> bool {
    s.connection_id@ == id
}

/// The session at `i` is the first for this cluster.
pub open spec fn first_session(ss: Seq<Session>, id: Seq<char>, i: int) -> bool {
    0 <= i < ss.len() && is_for(ss[i], id) && forall|j: int| 0 <= j < i ==> !is_for(ss[j], id)
}

/// Some session is for this cluster.
pub open spec fn has_session(ss: Seq<Session>, id: Seq<char>) -> bool {
    exists|i: int| 0 <= i < ss.len() && is_for(ss[i], id)
}

/// The position of the first session for this cluster.
pub open spec fn session_pos(ss: Seq<Session>, id: Seq<char>) -> Option<int> {
    if has_session(ss, id) {
        Some(choose|i: int| first_session(ss, id, i))
    } else {
        None
    }
}

/// The session is not for this cluster.
pub open spec fn not_for(id: Seq<char>) -> spec_fn(Session) -> bool {
    |s: Session| !is_for(s, id)
}

/// The sequences agree everywhere but at `p`.
pub open spec fn same_except(a: Seq<Session>, b: Seq<Session>, p: int) -> bool {
    a.len() == b.len() && forall|j: int| 0 <= j < a.len() && j != p ==> a[j] == b[j]
}

/// A fresh session of a saved cluster: its id and display name, idle, no
/// error, one topics tab, active.
pub open spec fn fresh_session_of(s: Session, cfg: ConnectionConfig) -> bool {
    &&& s.connection_id == cfg.id
    &&& s.name@ == display_name_of(cfg)
    &&& s.status == SessionStatus::Idle
    &&& s.error is None
    &&& s.tabs@.len() == 1
    &&& s.tabs@[0].kind == DocKind::Topics
    &&& s.tabs@[0].payload is None
    &&& s.active_tab == 0
}

proof fn lemma_first_session_exists(ss: Seq<Session>, id: Seq<char>)
    requires
        has_session(ss, id),
    ensures
        exists|i: int| first_session(ss, id, i),
    decreases ss.len(),
{
    if is_for(ss[0], id) {
        assert(first_session(ss, id, 0));
    } else {
        let k = choose|k: int| 0 <= k < ss.len() && is_for(ss[k], id);
        let t = ss.drop_first();
        assert(is_for(t[k - 1], id));
        lemma_first_session_exists(t, id);
        let i = choose|i: int| first_session(t, id, i);
        assert forall|j: int| 0 <= j < i + 1 implies !is_for(ss[j], id) by {
            if j > 0 {
                assert(ss[j] == t[j - 1]);
            }
        }
        assert(first_session(ss, id, i + 1));
    }
}

proof fn lemma_session_pos(ss: Seq<Session>, id: Seq<char>, i: int)
    requires
        first_session(ss, id, i),
    ensures
        session_pos(ss, id) == Some(i),
{
    let k = choose|k: int| first_session(ss, id, k);
    assert(first_session(ss, id, k));
    if k < i {
        assert(!is_for(ss[k], id));
    }
    if i < k {
        assert(!is_for(ss[i], id));
    }
}

proof fn lemma_session_pos_some(ss: Seq<Session>, id: Seq<char>)
    requires
        has_session(ss, id),
    ensures
        session_pos(ss, id) matches Some(p) && first_session(ss, id, p),
{
    lemma_first_session_exists(ss, id);
}

fn find_session(ss: &Vec<Session>, id: &str) -> (r: Option<usize>)
    ensures
        match r {
            Some(i) => session_pos(ss@, id@) == Some(i as int) && i < ss@.len(),
            None => session_pos(ss@, id@) is None,
        },
{
    let mut i: usize = 0;
    while i < ss.len()
        invariant
            i <= ss@.len(),
            forall|j: int| 0 <= j < i ==> !is_for(ss@[j], id@),
        decreases ss@.len() - i,
    {
        if str_eq(ss[i].connection_id.as_str(), id) {
            proof {
                lemma_session_pos(ss@, id@, i as int);
            }
            return Some(i);
        }
        i = i + 1;
    }
    None
}


/// The workspace is well formed with these sessions and this active id.
pub open spec fn sessions_wf(ss: Seq<Session>, active: Option<String>) -> bool {
    &&& forall|i: int| 0 <= i < ss.len() ==> session_ok(#[trigger] ss[i])
    &&& active matches Some(id) ==> has_session(ss, id@)
}

proof fn lemma_update_keeps_wf(a: Seq<Session>, b: Seq<Session>, p: int, active: Option<String>)
    requires
        sessions_wf(a, active),
        0 <= p < a.len(),
        same_except(a, b, p),
        b[p].connection_id == a[p].connection_id,
        session_ok(b[p]),
    ensures
        sessions_wf(b, active),
        forall|id: Seq<char>| session_pos(b, id) == session_pos(a, id),
{
    assert forall|i: int| 0 <= i < b.len() implies session_ok(#[trigger] b[i]) by {
        if i != p {
            assert(b[i] == a[i]);
        }
    }
    assert forall|id: Seq<char>| has_session(b, id) == has_session(a, id) by {
        if has_session(a, id) {
            let k = choose|k: int| 0 <= k < a.len() && is_for(a[k], id);
            assert(is_for(b[k], id));
        }
        if has_session(b, id) {
            let k = choose|k: int| 0 <= k < b.len() && is_for(b[k], id);
            assert(is_for(a[k], id));
        }
    }
    assert forall|id: Seq<char>| session_pos(b, id) == session_pos(a, id) by {
        if has_session(a, id) {
            lemma_session_pos_some(a, id);
            let q = session_pos(a, id)->0;
            assert forall|j: int| 0 <= j < q implies !is_for(b[j], id) by {
                assert(!is_for(a[j], id));
            }
            assert(first_session(b, id, q));
            lemma_session_pos(b, id, q);
        }
    }
}


/// A tab as it is stored.
#[derive(Clone, Debug)]
pub struct PersistedTab {
    pub kind: String,
    pub payload: Option<String>,
}

/// A session as it is stored.
#[derive(Clone, Debug)]
pub struct PersistedSession {
    pub connection_id: String,
    pub tabs: Vec<PersistedTab>,
    pub active_tab: usize,
}

/// The stored tab of a tab: its kind's name and its payload.
pub open spec fn tab_persisted(t: DocTab, pt: PersistedTab) -> bool {
    pt.kind@ == kind_name(t.kind) && pt.payload == t.payload
}

/// The stored session of a session.
pub open spec fn persisted_of(s: Session, ps: PersistedSession) -> bool {
    &&& ps.connection_id == s.connection_id
    &&& ps.tabs@.len() == s.tabs@.len()
    &&& forall|j: int| 0 <= j < ps.tabs@.len() ==> tab_persisted(s.tabs@[j], #[trigger] ps.tabs@[j])
    &&& ps.active_tab == s.active_tab
}

/// A copy of an optional text.
pub fn copy_text(t: &Option<String>) -> (r: Option<String>)
    ensures
        r == *t,
{
    match t {
        Some(s) => Some(s.clone()),
        None => None,
    }
}


/// The stored sessions whose cluster is still saved.
pub open spec fn kept_sessions(ps: Seq<PersistedSession>, saved: Seq<ConnectionConfig>) -> Seq<PersistedSession> {
    ps.filter(is_saved(saved))
}

/// The stored session's cluster is saved.
pub open spec fn is_saved(saved: Seq<ConnectionConfig>) -> spec_fn(PersistedSession) -> bool {
    |p: PersistedSession| has_id(saved, p.connection_id@)
}

/// The kind that a stored name reads as, topics where it names none.
pub open spec fn kind_or_topics(n: Seq<char>) -> DocKind {
    match kind_of_name(n) {
        Some(k) => k,
        None => DocKind::Topics,
    }
}

/// A tab restored from its stored form.
pub open spec fn tab_restored(t: DocTab, pt: PersistedTab) -> bool {
    t.kind == kind_or_topics(pt.kind@) && t.payload == pt.payload
}

/// A session restored from its stored form and its saved cluster: the
/// cluster's id and display name, idle, no error, the stored tabs (one
/// topics tab where none was stored), and the stored active tab held within
/// the tabs.
pub open spec fn restored_session(s: Session, ps: PersistedSession, cfg: ConnectionConfig) -> bool {
    &&& s.connection_id == cfg.id
    &&& s.name@ == display_name_of(cfg)
    &&& s.status == SessionStatus::Idle
    &&& s.error is None
    &&& if ps.tabs@.len() == 0 {
        s.tabs@.len() == 1 && s.tabs@[0].kind == DocKind::Topics && s.tabs@[0].payload is None
    } else {
        s.tabs@.len() == ps.tabs@.len() && forall|j: int|
            0 <= j < ps.tabs@.len() ==> tab_restored(#[trigger] s.tabs@[j], ps.tabs@[j])
    }
    &&& s.active_tab == if ps.active_tab < s.tabs@.len() {
        ps.active_tab as int
    } else {
        s.tabs@.len() - 1
    }
}

fn restore_tabs(stored: Vec<PersistedTab>) -> (r: Vec<DocTab>)
    ensures
        stored@.len() == 0 ==> r@.len() == 1 && r@[0].kind == DocKind::Topics && r@[0].payload is None,
        stored@.len() > 0 ==> r@.len() == stored@.len() && forall|j: int|
            0 <= j < stored@.len() ==> tab_restored(#[trigger] r@[j], stored@[j]),
{
    let ghost orig = stored@;
    let mut stored = stored;
    let n = stored.len();
    let mut tabs: Vec<DocTab> = Vec::new();
    let mut i: usize = 0;
    while i < n
        invariant
            n == orig.len(),
            i <= n,
            stored@ == orig.subrange(i as int, n as int),
            tabs@.len() == i,
            forall|j: int| 0 <= j < i ==> tab_restored(#[trigger] tabs@[j], orig[j]),
        decreases n - i,
    {
        let t = stored.remove(0);
        assert(t == orig[i as int]);
        let kind = match DocKind::from_name(t.kind.as_str()) {
            Some(k) => k,
            None => DocKind::Topics,
        };
        tabs.push(DocTab { kind, payload: t.payload });
        proof {
            assert(stored@ =~= orig.subrange(i + 1, n as int));
        }
        i = i + 1;
    }
    if tabs.len() == 0 {
        tabs.push(DocTab { kind: DocKind::Topics, payload: None });
    }
    tabs
}


proof fn lemma_filter_keeps_all(s: Seq<PersistedSession>, pred: spec_fn(PersistedSession) -> bool)
    requires
        forall|i: int| 0 <= i < s.len() ==> pred(#[trigger] s[i]),
    ensures
        s.filter(pred) == s,
    decreases s.len(),
{
    if s.len() == 0 {
        assert(s.filter(pred) =~= s) by {
            reveal(Seq::filter);
        }
    } else {
        let p = s.drop_last();
        assert forall|i: int| 0 <= i < p.len() implies pred(#[trigger] p[i]) by {
            assert(p[i] == s[i]);
        }
        lemma_filter_keeps_all(p, pred);
        p.lemma_filter_push(s.last(), pred);
        assert(p.push(s.last()) =~= s);
    }
}

/// Storing the sessions and restoring them gives them back: where every
/// session's cluster is still saved, the restored workspace has the same
/// sessions in the same order, each with the same cluster id, the same tabs
/// (kinds and payloads) and the same active tab.
pub proof fn lemma_restore_of_persisted(
    sessions: Seq<Session>,
    saved: Seq<ConnectionConfig>,
    stored: Seq<PersistedSession>,
    restored: Seq<Session>,
)
    requires
        forall|i: int| 0 <= i < sessions.len() ==> session_ok(#[trigger] sessions[i]),
        forall|i: int| 0 <= i < sessions.len() ==> has_id(saved, #[trigger] sessions[i].connection_id@),
        stored.len() == sessions.len(),
        forall|i: int| 0 <= i < stored.len() ==> persisted_of(sessions[i], #[trigger] stored[i]),
        restored.len() == kept_sessions(stored, saved).len(),
        forall|i: int|
            0 <= i < restored.len() ==> restored_session(
                #[trigger] restored[i],
                kept_sessions(stored, saved)[i],
                lookup(saved, kept_sessions(stored, saved)[i].connection_id@)->0,
            ),
    ensures
        restored.len() == sessions.len(),
        forall|i: int|
            0 <= i < restored.len() ==> {
                &&& (#[trigger] restored[i]).connection_id@ == sessions[i].connection_id@
                &&& restored[i].tabs@.len() == sessions[i].tabs@.len()
                &&& forall|j: int|
                    0 <= j < restored[i].tabs@.len() ==> (#[trigger] restored[i].tabs@[j]).kind
                        == sessions[i].tabs@[j].kind && restored[i].tabs@[j].payload
                        == sessions[i].tabs@[j].payload
                &&& restored[i].active_tab == sessions[i].active_tab
            },
{
    assert forall|i: int| 0 <= i < stored.len() implies (#[trigger] is_saved(saved)(stored[i])) by {
        assert(persisted_of(sessions[i], stored[i]));
        assert(has_id(saved, sessions[i].connection_id@));
    }
    lemma_filter_keeps_all(stored, is_saved(saved));
    assert forall|i: int| 0 <= i < restored.len() implies {
        &&& (#[trigger] restored[i]).connection_id@ == sessions[i].connection_id@
        &&& restored[i].tabs@.len() == sessions[i].tabs@.len()
        &&& forall|j: int|
            0 <= j < restored[i].tabs@.len() ==> (#[trigger] restored[i].tabs@[j]).kind
                == sessions[i].tabs@[j].kind && restored[i].tabs@[j].payload
                == sessions[i].tabs@[j].payload
        &&& restored[i].active_tab == sessions[i].active_tab
    } by {
        let ps = stored[i];
        let s = sessions[i];
        assert(persisted_of(s, ps));
        assert(session_ok(s));
        let id = ps.connection_id@;
        assert(has_id(saved, id));
        lemma_first_exists(saved, id);
        let k = choose|k: int| first_with_id(saved, id, k);
        lemma_lookup_at(saved, id, k);
        assert(restored_session(restored[i], ps, saved[k]));
        assert forall|j: int| 0 <= j < restored[i].tabs@.len() implies (#[trigger] restored[i].tabs@[j]).kind
            == s.tabs@[j].kind && restored[i].tabs@[j].payload == s.tabs@[j].payload by {
            assert(tab_persisted(s.tabs@[j], ps.tabs@[j]));
            assert(tab_restored(restored[i].tabs@[j], ps.tabs@[j]));
            lemma_kind_name_roundtrip(s.tabs@[j].kind);
        }
    }
}


/// After a cluster's sessions are closed, none is left for it.
pub proof fn lemma_close_session_removes(ss: Seq<Session>, id: Seq<char>)
    ensures
        !has_session(ss.filter(not_for(id)), id),
{
    let f = ss.filter(not_for(id));
    if has_session(f, id) {
        let k = choose|k: int| 0 <= k < f.len() && is_for(f[k], id);
        ss.lemma_filter_pred(not_for(id), k);
    }
}

/// What opening a saved cluster did.
#[derive(Clone, Copy, Debug, PartialEq, Eq, Structural)]
pub enum OpenOutcome {
    /// Its session was open already and became active.
    Activated,
    /// A session was opened for it and became active.
    Opened,
    /// No saved cluster has the id.
    NotFound,
}

/// What closing a tab did.
#[derive(Clone, Copy, Debug, PartialEq, Eq, Structural)]
pub enum TabClose {
    /// There was no such tab.
    Ignored,
    /// The tab was closed.
    Closed,
    /// The session's last tab was closed, and with it the session.
    SessionClosed,
}

/// The open sessions, the saved clusters, and which session is active.
pub struct Workspace {
    pub saved: Vec<ConnectionConfig>,
    pub sessions: Vec<Session>,
    pub active_id: Option<String>,
}

impl Workspace {
    /// Every session has a valid active tab, and the active id, if any, is
    /// that of an open session.
    pub open spec fn wf(&self) -> bool {
        sessions_wf(self.sessions@, self.active_id)
    }

    /// The position of the active session.
    pub open spec fn active_pos(&self) -> Option<int> {
        match self.active_id {
            Some(id) => session_pos(self.sessions@, id@),
            None => None,
        }
    }

    /// Whether a session for the cluster is open.
    pub fn is_open(&self, id: &str) -> (r: bool)
        ensures
            r == has_session(self.sessions@, id@),
    {
        match find_session(&self.sessions, id) {
            Some(_) => true,
            None => false,
        }
    }

    /// The position of the active session.
    pub fn active_index(&self) -> (r: Option<usize>)
        ensures
            match r {
                Some(i) => self.active_pos() == Some(i as int) && i < self.sessions@.len(),
                None => self.active_pos() is None,
            },
    {
        match &self.active_id {
            Some(id) => find_session(&self.sessions, id.as_str()),
            None => None,
        }
    }

    /// The active session.
    pub fn active_session(&self) -> (r: Option<&Session>)
        ensures
            match self.active_pos() {
                Some(p) => r matches Some(s) && *s == self.sessions@[p],
                None => r is None,
            },
    {
        match self.active_index() {
            Some(i) => Some(&self.sessions[i]),
            None => None,
        }
    }

    /// Makes the cluster's session active, where one is open.
    pub fn activate(&mut self, id: &str) -> (r: bool)
        requires
            old(self).wf(),
        ensures
            final(self).wf(),
            r == has_session(old(self).sessions@, id@),
            final(self).sessions == old(self).sessions,
            final(self).saved == old(self).saved,
            r ==> (final(self).active_id matches Some(a) && a@ == id@),
            !r ==> final(self).active_id == old(self).active_id,
    {
        if self.is_open(id) {
            self.active_id = Some(to_owned_string(id));
            true
        } else {
            false
        }
    }

    /// Opens a saved cluster: its session becomes active, and where none is
    /// open a fresh one is added for it.
    pub fn open_saved(&mut self, id: &str) -> (r: OpenOutcome)
        requires
            old(self).wf(),
        ensures
            final(self).wf(),
            final(self).saved == old(self).saved,
            has_session(old(self).sessions@, id@) ==> {
                &&& r == OpenOutcome::Activated
                &&& final(self).sessions == old(self).sessions
                &&& final(self).active_id matches Some(a) && a@ == id@
            },
            !has_session(old(self).sessions@, id@) && lookup(old(self).saved@, id@) is None ==> {
                &&& r == OpenOutcome::NotFound
                &&& final(self).sessions == old(self).sessions
                &&& final(self).active_id == old(self).active_id
            },
            !has_session(old(self).sessions@, id@) ==> (lookup(old(self).saved@, id@) matches Some(
                cfg,
            ) ==> {
                &&& r == OpenOutcome::Opened
                &&& final(self).sessions@.len() == old(self).sessions@.len() + 1
                &&& final(self).sessions@.subrange(0, old(self).sessions@.len() as int)
                    == old(self).sessions@
                &&& fresh_session_of(final(self).sessions@.last(), cfg)
                &&& final(self).active_id == Some(cfg.id)
            }),
            r != OpenOutcome::NotFound ==> has_session(final(self).sessions@, id@),
            r != OpenOutcome::NotFound ==> (final(self).active_id matches Some(a) && a@ == id@),
    {
        if self.is_open(id) {
            self.active_id = Some(to_owned_string(id));
            return OpenOutcome::Activated;
        }
        let k = match position_of_id(&self.saved, id) {
            Some(k) => k,
            None => return OpenOutcome::NotFound,
        };
        proof {
            lemma_lookup_at(self.saved@, id@, k as int);
        }
        let cfg = &self.saved[k];
        let mut tabs = Vec::new();
        tabs.push(DocTab { kind: DocKind::Topics, payload: None });
        let session = Session {
            connection_id: cfg.id.clone(),
            name: to_owned_string(cfg.display_name()),
            status: SessionStatus::Idle,
            error: None,
            tabs,
            active_tab: 0,
        };
        let active = cfg.id.clone();
        self.sessions.push(session);
        self.active_id = Some(active);
        proof {
            let n = old(self).sessions@.len();
            assert(self.sessions@.subrange(0, n as int) =~= old(self).sessions@);
            assert(is_for(self.sessions@[n as int], id@));
            assert forall|i: int| 0 <= i < self.sessions@.len() implies session_ok(
                #[trigger] self.sessions@[i],
            ) by {
                if i < n {
                    assert(self.sessions@[i] == old(self).sessions@[i]);
                }
            }
        }
        OpenOutcome::Opened
    }

    /// Closes every session of the cluster; where one was active, the first
    /// remaining session (if any) becomes active.
    pub fn close_session(&mut self, id: &str)
        requires
            old(self).wf(),
        ensures
            final(self).wf(),
            final(self).saved == old(self).saved,
            final(self).sessions@ == old(self).sessions@.filter(not_for(id@)),
            (old(self).active_id matches Some(a) && a@ == id@) ==> final(self).active_id == (
            if final(self).sessions@.len() > 0 {
                Some(final(self).sessions@[0].connection_id)
            } else {
                None
            }),
            !(old(self).active_id matches Some(a) && a@ == id@) ==> final(self).active_id
                == old(self).active_id,
    {
        let ghost orig = self.sessions@;
        let ghost mut k: int = 0;
        let mut i: usize = 0;
        while i < self.sessions.len()
            invariant
                0 <= k <= orig.len(),
                i <= self.sessions@.len(),
                self.saved == old(self).saved,
                self.active_id == old(self).active_id,
                orig == old(self).sessions@,
                self.sessions@ == orig.subrange(0, k).filter(not_for(id@)) + orig.subrange(
                    k,
                    orig.len() as int,
                ),
                i == orig.subrange(0, k).filter(not_for(id@)).len(),
            decreases orig.len() - k,
        {
            let ghost pre = orig.subrange(0, k);
            proof {
                assert(orig.subrange(0, k + 1) =~= pre.push(orig[k]));
                pre.lemma_filter_push(orig[k], not_for(id@));
                assert(self.sessions@[i as int] == orig[k]);
            }
            if str_eq(self.sessions[i].connection_id.as_str(), id) {
                self.sessions.remove(i);
                proof {
                    assert(self.sessions@ =~= orig.subrange(0, k + 1).filter(not_for(id@))
                        + orig.subrange(k + 1, orig.len() as int));
                }
            } else {
                proof {
                    assert(self.sessions@ =~= orig.subrange(0, k + 1).filter(not_for(id@))
                        + orig.subrange(k + 1, orig.len() as int));
                }
                i = i + 1;
            }
            proof {
                k = k + 1;
            }
        }
        proof {
            assert(orig.subrange(k, orig.len() as int).len() == 0);
            assert(orig.subrange(0, k) =~= orig);
            assert(self.sessions@ =~= orig.filter(not_for(id@)));
        }
        let was_active = match &self.active_id {
            Some(a) => str_eq(a.as_str(), id),
            None => false,
        };
        if was_active {
            self.active_id = if self.sessions.len() > 0 {
                Some(self.sessions[0].connection_id.clone())
            } else {
                None
            };
        }
        proof {
            broadcast use Seq::lemma_filter_contains_rev;
            broadcast use Seq::lemma_filter_contains;

            let f = self.sessions@;
            assert forall|i: int| 0 <= i < f.len() implies session_ok(#[trigger] f[i]) by {
                assert(f.contains(f[i]));
                orig.lemma_filter_contains_rev(not_for(id@), f[i]);
            }
            if let Some(a) = &self.active_id {
                if was_active {
                    assert(is_for(f[0], a@));
                } else {
                    let j = choose|j: int| 0 <= j < orig.len() && is_for(orig[j], a@);
                    assert(!is_for(orig[j], id@));
                    orig.lemma_filter_contains(not_for(id@), j);
                    let m = choose|m: int| 0 <= m < f.len() && f[m] == orig[j];
                    assert(is_for(f[m], a@));
                }
            }
        }
    }

    /// Makes the active session's tab at `ix` active, where there is one.
    pub fn activate_tab(&mut self, ix: usize) -> (r: bool)
        requires
            old(self).wf(),
        ensures
            final(self).wf(),
            final(self).saved == old(self).saved,
            final(self).active_id == old(self).active_id,
            match old(self).active_pos() {
                None => !r && final(self).sessions == old(self).sessions,
                Some(p) => {
                    let (a, b) = (old(self).sessions@[p], final(self).sessions@[p]);
                    &&& same_except(old(self).sessions@, final(self).sessions@, p)
                    &&& same_but_tabs(b, a)
                    &&& r == (ix < a.tabs@.len())
                    &&& b.tabs@ == a.tabs@
                    &&& b.active_tab == if r {
                        ix
                    } else {
                        a.active_tab
                    }
                },
            },
    {
        let p = match self.active_index() {
            Some(p) => p,
            None => return false,
        };
        let mut s = self.sessions.remove(p);
        let r = s.activate_tab(ix);
        self.sessions.insert(p, s);
        proof {
            lemma_update_keeps_wf(old(self).sessions@, self.sessions@, p as int, self.active_id);
        }
        r
    }

    /// In the active session, closes every tab but the one at `ix`.
    pub fn close_other_tabs(&mut self, ix: usize) -> (r: bool)
        requires
            old(self).wf(),
        ensures
            final(self).wf(),
            final(self).saved == old(self).saved,
            final(self).active_id == old(self).active_id,
            match old(self).active_pos() {
                None => !r && final(self).sessions == old(self).sessions,
                Some(p) => {
                    let (a, b) = (old(self).sessions@[p], final(self).sessions@[p]);
                    &&& same_except(old(self).sessions@, final(self).sessions@, p)
                    &&& same_but_tabs(b, a)
                    &&& r == (ix < a.tabs@.len() && a.tabs@.len() > 1)
                    &&& r ==> b.tabs@ == seq![a.tabs@[ix as int]] && b.active_tab == 0
                    &&& !r ==> b.tabs@ == a.tabs@ && b.active_tab == a.active_tab
                },
            },
    {
        let p = match self.active_index() {
            Some(p) => p,
            None => return false,
        };
        let mut s = self.sessions.remove(p);
        let r = s.close_other_tabs(ix);
        self.sessions.insert(p, s);
        proof {
            lemma_update_keeps_wf(old(self).sessions@, self.sessions@, p as int, self.active_id);
        }
        r
    }

    /// In the active session, closes the tabs right of `ix`.
    pub fn close_tabs_to_right(&mut self, ix: usize) -> (r: bool)
        requires
            old(self).wf(),
            ix < usize::MAX,
        ensures
            final(self).wf(),
            final(self).saved == old(self).saved,
            final(self).active_id == old(self).active_id,
            match old(self).active_pos() {
                None => !r && final(self).sessions == old(self).sessions,
                Some(p) => {
                    let (a, b) = (old(self).sessions@[p], final(self).sessions@[p]);
                    &&& same_except(old(self).sessions@, final(self).sessions@, p)
                    &&& same_but_tabs(b, a)
                    &&& r == (ix + 1 < a.tabs@.len())
                    &&& r ==> b.tabs@ == a.tabs@.subrange(0, ix + 1) && b.active_tab == if a.active_tab
                        > ix {
                        ix
                    } else {
                        a.active_tab
                    }
                    &&& !r ==> b.tabs@ == a.tabs@ && b.active_tab == a.active_tab
                },
            },
    {
        let p = match self.active_index() {
            Some(p) => p,
            None => return false,
        };
        let mut s = self.sessions.remove(p);
        let r = s.close_tabs_to_right(ix);
        self.sessions.insert(p, s);
        proof {
            lemma_update_keeps_wf(old(self).sessions@, self.sessions@, p as int, self.active_id);
        }
        r
    }

    /// In the active session, moves the tab at `from` to `to`; the active
    /// tab follows its document.
    pub fn move_tab(&mut self, from: usize, to: usize) -> (r: bool)
        requires
            old(self).wf(),
        ensures
            final(self).wf(),
            final(self).saved == old(self).saved,
            final(self).active_id == old(self).active_id,
            match old(self).active_pos() {
                None => !r && final(self).sessions == old(self).sessions,
                Some(p) => {
                    let (a, b) = (old(self).sessions@[p], final(self).sessions@[p]);
                    &&& same_except(old(self).sessions@, final(self).sessions@, p)
                    &&& same_but_tabs(b, a)
                    &&& r == (from != to && from < a.tabs@.len() && to < a.tabs@.len())
                    &&& r ==> b.tabs@ == a.tabs@.remove(from as int).insert(
                        to as int,
                        a.tabs@[from as int],
                    ) && b.active_tab == moved_index(a.active_tab as int, from as int, to as int)
                    &&& !r ==> b.tabs@ == a.tabs@ && b.active_tab == a.active_tab
                },
            },
    {
        let p = match self.active_index() {
            Some(p) => p,
            None => return false,
        };
        let mut s = self.sessions.remove(p);
        let r = s.move_tab(from, to);
        self.sessions.insert(p, s);
        proof {
            lemma_update_keeps_wf(old(self).sessions@, self.sessions@, p as int, self.active_id);
        }
        r
    }

    /// Shows a document in the active session: a kind shown at most once per
    /// session focuses its existing tab, otherwise a new tab is added.
    pub fn open_doc(&mut self, kind: DocKind, payload: Option<String>) -> (r: DocOpen)
        requires
            old(self).wf(),
        ensures
            final(self).wf(),
            final(self).saved == old(self).saved,
            final(self).active_id == old(self).active_id,
            match old(self).active_pos() {
                None => r == DocOpen::NoSession && final(self).sessions == old(self).sessions,
                Some(p) => {
                    let (a, b) = (old(self).sessions@[p], final(self).sessions@[p]);
                    &&& same_except(old(self).sessions@, final(self).sessions@, p)
                    &&& same_but_tabs(b, a)
                    &&& opened_doc(a.tabs@, kind, payload, r, b.tabs@, b.active_tab as int)
                },
            },
    {
        let p = match self.active_index() {
            Some(p) => p,
            None => return DocOpen::NoSession,
        };
        let mut s = self.sessions.remove(p);
        let r = s.open_doc(kind, payload);
        self.sessions.insert(p, s);
        proof {
            lemma_update_keeps_wf(old(self).sessions@, self.sessions@, p as int, self.active_id);
        }
        r
    }

    /// In the active session, closes the tab at `ix`. Closing the last tab
    /// closes the session, as `close_session` does.
    pub fn close_tab(&mut self, ix: usize) -> (r: TabClose)
        requires
            old(self).wf(),
        ensures
            final(self).wf(),
            final(self).saved == old(self).saved,
            match old(self).active_pos() {
                None => r == TabClose::Ignored && final(self).sessions == old(self).sessions
                    && final(self).active_id == old(self).active_id,
                Some(p) => {
                    let (a, b) = (old(self).sessions@[p], final(self).sessions@[p]);
                    &&& (ix >= a.tabs@.len()) ==> (r == TabClose::Ignored && final(self).sessions
                        == old(self).sessions && final(self).active_id == old(self).active_id)
                    &&& (ix < a.tabs@.len() && a.tabs@.len() == 1) ==> {
                        &&& r == TabClose::SessionClosed
                        &&& final(self).sessions@ == old(self).sessions@.filter(
                            not_for(a.connection_id@),
                        )
                        &&& final(self).active_id == if final(self).sessions@.len() > 0 {
                            Some(final(self).sessions@[0].connection_id)
                        } else {
                            None
                        }
                    }
                    &&& (ix < a.tabs@.len() && a.tabs@.len() > 1) ==> {
                        &&& r == TabClose::Closed
                        &&& final(self).active_id == old(self).active_id
                        &&& same_except(old(self).sessions@, final(self).sessions@, p)
                        &&& same_but_tabs(b, a)
                        &&& b.tabs@ == a.tabs@.remove(ix as int)
                        &&& b.active_tab == closed_index(
                            a.active_tab as int,
                            ix as int,
                            b.tabs@.len() as int,
                        )
                    }
                },
            },
    {
        let p = match self.active_index() {
            Some(p) => p,
            None => return TabClose::Ignored,
        };
        let n = self.sessions[p].tabs.len();
        if ix >= n {
            return TabClose::Ignored;
        }
        if n == 1 {
            let id = self.sessions[p].connection_id.clone();
            proof {
                let a = self.active_id->0;
                lemma_session_pos_some(self.sessions@, a@);
                assert(is_for(self.sessions@[p as int], a@));
            }
            self.close_session(id.as_str());
            return TabClose::SessionClosed;
        }
        let mut s = self.sessions.remove(p);
        s.close_tab(ix);
        self.sessions.insert(p, s);
        proof {
            lemma_update_keeps_wf(old(self).sessions@, self.sessions@, p as int, self.active_id);
        }
        TabClose::Closed
    }

    /// Starts connecting the active session: where it is neither live nor
    /// connecting and its cluster is saved, it turns to connecting with its
    /// error cleared, and the cluster's settings come back.
    pub fn begin_connect(&mut self) -> (r: Option<ConnectionConfig>)
        requires
            old(self).wf(),
        ensures
            final(self).wf(),
            final(self).saved == old(self).saved,
            final(self).active_id == old(self).active_id,
            match old(self).active_pos() {
                None => r is None && final(self).sessions == old(self).sessions,
                Some(p) => {
                    let (a, b) = (old(self).sessions@[p], final(self).sessions@[p]);
                    if a.status != SessionStatus::Idle || lookup(
                        old(self).saved@,
                        a.connection_id@,
                    ) is None {
                        r is None && final(self).sessions == old(self).sessions
                    } else {
                        &&& r == lookup(old(self).saved@, a.connection_id@)
                        &&& same_except(old(self).sessions@, final(self).sessions@, p)
                        &&& b.connection_id == a.connection_id && b.name == a.name
                        &&& b.status == SessionStatus::Connecting
                        &&& b.error is None
                        &&& b.tabs == a.tabs && b.active_tab == a.active_tab
                    }
                },
            },
    {
        let p = match self.active_index() {
            Some(p) => p,
            None => return None,
        };
        if self.sessions[p].status == SessionStatus::Live || self.sessions[p].status
            == SessionStatus::Connecting {
            return None;
        }
        let k = match position_of_id(&self.saved, self.sessions[p].connection_id.as_str()) {
            Some(k) => k,
            None => return None,
        };
        proof {
            lemma_lookup_at(self.saved@, self.sessions@[p as int].connection_id@, k as int);
        }
        let cfg = self.saved[k].copy();
        let mut s = self.sessions.remove(p);
        s.status = SessionStatus::Connecting;
        s.error = None;
        self.sessions.insert(p, s);
        proof {
            lemma_update_keeps_wf(old(self).sessions@, self.sessions@, p as int, self.active_id);
        }
        Some(cfg)
    }

    /// Records how connecting the cluster's session ended: live without an
    /// error, or idle with the error's text.
    pub fn finish_connect(&mut self, id: &str, outcome: Result<(), String>)
        requires
            old(self).wf(),
        ensures
            final(self).wf(),
            final(self).saved == old(self).saved,
            final(self).active_id == old(self).active_id,
            match session_pos(old(self).sessions@, id@) {
                None => final(self).sessions == old(self).sessions,
                Some(p) => {
                    let (a, b) = (old(self).sessions@[p], final(self).sessions@[p]);
                    &&& same_except(old(self).sessions@, final(self).sessions@, p)
                    &&& b.connection_id == a.connection_id && b.name == a.name
                    &&& b.tabs == a.tabs && b.active_tab == a.active_tab
                    &&& match outcome {
                        Ok(()) => b.status == SessionStatus::Live && b.error is None,
                        Err(m) => b.status == SessionStatus::Idle && b.error == Some(m),
                    }
                },
            },
    {
        let p = match find_session(&self.sessions, id) {
            Some(p) => p,
            None => return,
        };
        let mut s = self.sessions.remove(p);
        match outcome {
            Ok(()) => {
                s.status = SessionStatus::Live;
                s.error = None;
            },
            Err(m) => {
                s.status = SessionStatus::Idle;
                s.error = Some(m);
            },
        }
        self.sessions.insert(p, s);
        proof {
            lemma_update_keeps_wf(old(self).sessions@, self.sessions@, p as int, self.active_id);
        }
    }

    /// The open sessions as they are stored: each cluster id, its tabs by
    /// kind name and payload, and its active tab.
    pub fn persisted(&self) -> (r: Vec<PersistedSession>)
        ensures
            r@.len() == self.sessions@.len(),
            forall|i: int| 0 <= i < r@.len() ==> persisted_of(self.sessions@[i], #[trigger] r@[i]),
    {
        let mut out: Vec<PersistedSession> = Vec::new();
        let mut i: usize = 0;
        while i < self.sessions.len()
            invariant
                i <= self.sessions@.len(),
                out@.len() == i,
                forall|j: int| 0 <= j < i ==> persisted_of(self.sessions@[j], #[trigger] out@[j]),
            decreases self.sessions@.len() - i,
        {
            let s = &self.sessions[i];
            let mut tabs: Vec<PersistedTab> = Vec::new();
            let mut j: usize = 0;
            while j < s.tabs.len()
                invariant
                    j <= s.tabs@.len(),
                    tabs@.len() == j,
                    forall|m: int| 0 <= m < j ==> tab_persisted(s.tabs@[m], #[trigger] tabs@[m]),
                decreases s.tabs@.len() - j,
            {
                let t = &s.tabs[j];
                tabs.push(PersistedTab { kind: to_owned_string(t.kind.as_str()), payload: copy_text(&t.payload) });
                j = j + 1;
            }
            out.push(
                PersistedSession {
                    connection_id: s.connection_id.clone(),
                    tabs,
                    active_tab: s.active_tab,
                },
            );
            i = i + 1;
        }
        out
    }

    /// The workspace over the saved clusters, with the sessions as they were
    /// stored: a session for each stored one whose cluster is still saved,
    /// in their order, and the stored active id where it names one of them.
    /// Nothing stored gives an empty workspace.
    pub fn new(saved: Vec<ConnectionConfig>, stored: Vec<PersistedSession>, active: Option<String>) -> (w: Workspace)
        ensures
            w.wf(),
            w.saved == saved,
            w.sessions@.len() == kept_sessions(stored@, saved@).len(),
            forall|i: int|
                0 <= i < w.sessions@.len() ==> restored_session(
                    #[trigger] w.sessions@[i],
                    kept_sessions(stored@, saved@)[i],
                    lookup(saved@, kept_sessions(stored@, saved@)[i].connection_id@)->0,
                ),
            w.active_id == match active {
                Some(a) => if has_session(w.sessions@, a@) {
                    Some(a)
                } else {
                    None
                },
                None => None,
            },
    {
        let ghost orig = stored@;
        let mut stored = stored;
        let n = stored.len();
        let mut sessions: Vec<Session> = Vec::new();
        let mut i: usize = 0;
        while i < n
            invariant
                n == orig.len(),
                i <= n,
                stored@ == orig.subrange(i as int, n as int),
                sessions@.len() == kept_sessions(orig.subrange(0, i as int), saved@).len(),
                forall|m: int|
                    0 <= m < sessions@.len() ==> restored_session(
                        #[trigger] sessions@[m],
                        kept_sessions(orig.subrange(0, i as int), saved@)[m],
                        lookup(saved@, kept_sessions(orig.subrange(0, i as int), saved@)[m].connection_id@)->0,
                    ),
                forall|m: int| 0 <= m < sessions@.len() ==> session_ok(#[trigger] sessions@[m]),
            decreases n - i,
        {
            let spec = stored.remove(0);
            assert(spec == orig[i as int]);
            let ghost pre = orig.subrange(0, i as int);
            proof {
                assert(orig.subrange(0, i + 1) =~= pre.push(spec));
                pre.lemma_filter_push(spec, is_saved(saved@));
                assert(stored@ =~= orig.subrange(i + 1, n as int));
            }
            match position_of_id(&saved, spec.connection_id.as_str()) {
                None => {},
                Some(k) => {
                    proof {
                        lemma_lookup_at(saved@, spec.connection_id@, k as int);
                    }
                    let cfg = &saved[k];
                    let active_tab = spec.active_tab;
                    let tabs = restore_tabs(spec.tabs);
                    let last = tabs.len() - 1;
                    let session = Session {
                        connection_id: cfg.id.clone(),
                        name: to_owned_string(cfg.display_name()),
                        status: SessionStatus::Idle,
                        error: None,
                        tabs,
                        active_tab: if active_tab < last + 1 {
                            active_tab
                        } else {
                            last
                        },
                    };
                    sessions.push(session);
                },
            }
            i = i + 1;
        }
        proof {
            assert(orig.subrange(0, n as int) =~= orig);
        }
        let active_id = match active {
            Some(a) => if find_session(&sessions, a.as_str()).is_some() {
                Some(a)
            } else {
                None
            },
            None => None,
        };
        Workspace { saved, sessions, active_id }
    }
}

} // verus!
