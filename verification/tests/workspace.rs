use kaforge::config::ConnectionConfig;
use kaforge::docs::DocKind;
use kaforge::workspace::{
    moved_active_index, DocOpen, OpenOutcome, PersistedSession, PersistedTab, SessionStatus, TabClose, Workspace,
};

fn saved() -> Vec<ConnectionConfig> {
    let mut out = Vec::new();
    for (id, name) in [("a", "Alpha"), ("b", " "), ("c", "Gamma")] {
        let mut c = ConnectionConfig::default();
        c.id = id.into();
        c.name = name.into();
        c.bootstrap_servers = format!("{id}:9092");
        out.push(c);
    }
    out
}

fn kinds(ws: &Workspace) -> Vec<DocKind> {
    ws.active_session().unwrap().tabs.iter().map(|t| t.kind).collect()
}

#[test]
fn open_activate_and_close_sessions() {
    let mut ws = Workspace::new(saved(), Vec::new(), None);
    assert_eq!(ws.open_saved("zz"), OpenOutcome::NotFound);
    assert_eq!(ws.open_saved("a"), OpenOutcome::Opened);
    assert_eq!(ws.open_saved("b"), OpenOutcome::Opened);
    assert_eq!(ws.sessions[1].name, "b:9092");
    assert_eq!(ws.active_id.as_deref(), Some("b"));
    assert_eq!(ws.open_saved("a"), OpenOutcome::Activated);
    assert_eq!(ws.sessions.len(), 2);
    assert!(ws.is_open("a") && !ws.is_open("c"));
    assert!(!ws.activate("c"));
    assert!(ws.activate("b"));
    ws.close_session("b");
    assert_eq!(ws.active_id.as_deref(), Some("a"));
    ws.close_session("a");
    assert_eq!(ws.active_id, None);
    assert!(ws.sessions.is_empty());
}

#[test]
fn tabs_open_once_or_each_time() {
    let mut ws = Workspace::new(saved(), Vec::new(), None);
    assert_eq!(ws.open_doc(DocKind::Groups, None), DocOpen::NoSession);
    ws.open_saved("a");
    assert_eq!(ws.open_doc(DocKind::Groups, None), DocOpen::Added(1));
    assert_eq!(ws.open_doc(DocKind::Topics, None), DocOpen::Focused(0));
    assert_eq!(ws.open_doc(DocKind::Groups, None), DocOpen::Focused(1));
    assert_eq!(ws.open_doc(DocKind::Producer, None), DocOpen::Added(2));
    assert_eq!(ws.open_doc(DocKind::Producer, Some("t".into())), DocOpen::Added(3));
    assert_eq!(kinds(&ws), vec![DocKind::Topics, DocKind::Groups, DocKind::Producer, DocKind::Producer]);
    assert_eq!(ws.active_session().unwrap().active_tab, 3);
}

#[test]
fn closing_tabs_keeps_the_active_document() {
    let mut ws = Workspace::new(saved(), Vec::new(), None);
    ws.open_saved("a");
    ws.open_doc(DocKind::Groups, None);
    ws.open_doc(DocKind::Nodes, None);
    assert!(ws.activate_tab(1));
    assert!(!ws.activate_tab(9));
    assert_eq!(ws.close_tab(0), TabClose::Closed);
    let s = ws.active_session().unwrap();
    assert_eq!(s.tabs[s.active_tab].kind, DocKind::Groups);
    assert_eq!(ws.close_tab(7), TabClose::Ignored);
    assert_eq!(ws.close_tab(0), TabClose::Closed);
    assert_eq!(kinds(&ws), vec![DocKind::Nodes]);
    assert_eq!(ws.close_tab(0), TabClose::SessionClosed);
    assert!(ws.sessions.is_empty());
    assert_eq!(ws.active_id, None);
}

#[test]
fn close_others_and_to_the_right() {
    let mut ws = Workspace::new(saved(), Vec::new(), None);
    ws.open_saved("a");
    for k in [DocKind::Nodes, DocKind::Groups, DocKind::Acl] {
        ws.open_doc(k, None);
    }
    assert!(ws.close_tabs_to_right(1));
    assert_eq!(kinds(&ws), vec![DocKind::Topics, DocKind::Nodes]);
    assert_eq!(ws.active_session().unwrap().active_tab, 1);
    assert!(!ws.close_tabs_to_right(1));
    assert!(ws.close_other_tabs(1));
    assert_eq!(kinds(&ws), vec![DocKind::Nodes]);
    assert!(!ws.close_other_tabs(0));
}

#[test]
fn moving_tabs() {
    let mut ws = Workspace::new(saved(), Vec::new(), None);
    ws.open_saved("a");
    for k in [DocKind::Nodes, DocKind::Groups, DocKind::Acl] {
        ws.open_doc(k, None);
    }
    ws.activate_tab(2);
    assert!(ws.move_tab(0, 3));
    assert_eq!(kinds(&ws), vec![DocKind::Nodes, DocKind::Groups, DocKind::Acl, DocKind::Topics]);
    let s = ws.active_session().unwrap();
    assert_eq!(s.tabs[s.active_tab].kind, DocKind::Groups);
    assert!(!ws.move_tab(1, 1));
    assert!(!ws.move_tab(1, 4));
    assert_eq!(moved_active_index(2, 2, 0), 0);
    assert_eq!(moved_active_index(1, 3, 0), 2);
    assert_eq!(moved_active_index(3, 0, 2), 3);
}

#[test]
fn connecting_states() {
    let mut ws = Workspace::new(saved(), Vec::new(), None);
    assert!(ws.begin_connect().is_none());
    ws.open_saved("c");
    let cfg = ws.begin_connect().unwrap();
    assert_eq!(cfg.id, "c");
    assert_eq!(ws.sessions[0].status, SessionStatus::Connecting);
    assert!(ws.begin_connect().is_none());
    ws.finish_connect("c", Err("refused".into()));
    assert_eq!(ws.sessions[0].status, SessionStatus::Idle);
    assert_eq!(ws.sessions[0].error.as_deref(), Some("refused"));
    assert!(ws.begin_connect().is_some());
    ws.finish_connect("c", Ok(()));
    assert_eq!(ws.sessions[0].status, SessionStatus::Live);
    assert_eq!(ws.sessions[0].error, None);
    assert!(ws.begin_connect().is_none());
}

#[test]
fn restore_after_persist() {
    let mut ws = Workspace::new(saved(), Vec::new(), None);
    ws.open_saved("a");
    ws.open_doc(DocKind::Consumer, Some("orders".into()));
    ws.open_saved("c");
    ws.open_doc(DocKind::Sr, None);
    ws.activate_tab(0);
    let stored = ws.persisted();
    assert_eq!(stored[0].tabs[1].kind, "consumer");
    let back = Workspace::new(saved(), stored, ws.active_id.clone());
    assert_eq!(back.sessions.len(), 2);
    assert_eq!(back.active_id.as_deref(), Some("c"));
    for (x, y) in back.sessions.iter().zip(ws.sessions.iter()) {
        assert_eq!(x.connection_id, y.connection_id);
        assert_eq!(x.active_tab, y.active_tab);
        let xk: Vec<_> = x.tabs.iter().map(|t| (t.kind, t.payload.clone())).collect();
        let yk: Vec<_> = y.tabs.iter().map(|t| (t.kind, t.payload.clone())).collect();
        assert_eq!(xk, yk);
    }
}

#[test]
fn restore_skips_unknown_and_clamps() {
    let stored = vec![
        PersistedSession { connection_id: "gone".into(), tabs: Vec::new(), active_tab: 0 },
        PersistedSession {
            connection_id: "b".into(),
            tabs: vec![
                PersistedTab { kind: "bogus".into(), payload: None },
                PersistedTab { kind: "acl".into(), payload: Some("p".into()) },
            ],
            active_tab: 9,
        },
        PersistedSession { connection_id: "a".into(), tabs: Vec::new(), active_tab: 3 },
    ];
    let ws = Workspace::new(saved(), stored, Some("gone".into()));
    assert_eq!(ws.sessions.len(), 2);
    assert_eq!(ws.active_id, None);
    assert_eq!(ws.sessions[0].name, "b:9092");
    assert_eq!(ws.sessions[0].tabs[0].kind, DocKind::Topics);
    assert_eq!(ws.sessions[0].tabs[1].kind, DocKind::Acl);
    assert_eq!(ws.sessions[0].active_tab, 1);
    assert_eq!(ws.sessions[1].tabs.len(), 1);
    assert_eq!(ws.sessions[1].active_tab, 0);
}
