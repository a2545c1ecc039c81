use kaforge::docs::{columns_for, sidebar_entries, toolbar, DocKind, ToolbarItem};
use kaforge::startup::{is_nightly_build, is_smoke_test, smoke_gate_is_window};

#[test]
fn kind_names_round_trip() {
    for k in DocKind::all_nav() {
        assert_eq!(DocKind::from_name(k.as_str()), Some(k));
    }
    assert_eq!(DocKind::from_name("Topics"), None);
    assert_eq!(DocKind::all_nav()[0], DocKind::Topics);
    assert_eq!(DocKind::Sr.as_str(), "sr");
    assert!(DocKind::Producer.opens_new_tab());
    assert!(!DocKind::Groups.opens_new_tab());
}

#[test]
fn nightly_channel() {
    assert!(is_nightly_build("nightly"));
    assert!(!is_nightly_build("stable"));
}

#[test]
fn smoke_switches() {
    assert!(is_smoke_test(Some("1")));
    assert!(!is_smoke_test(Some("true")));
    assert!(!is_smoke_test(None));
    assert!(smoke_gate_is_window(Some("window")));
    assert!(!smoke_gate_is_window(Some("Window")));
    assert!(!smoke_gate_is_window(None));
}

#[test]
fn table_columns_per_kind() {
    let cols = columns_for(DocKind::Topics);
    assert_eq!(cols.len(), 4);
    assert_eq!(cols[1].id, "partitions");
    assert_eq!(cols[1].label, "col_partitions");
    assert_eq!(cols[1].width, 90);
    assert!(cols[1].sortable && cols[1].numeric);
    assert!(!cols[3].sortable);
    let cols = columns_for(DocKind::Consumer);
    assert_eq!(cols.len(), 6);
    assert_eq!(cols[5].id, "value");
    assert_eq!(cols[5].width, 320);
    assert_eq!(columns_for(DocKind::Sr)[0].id, "subject");
    assert_eq!(columns_for(DocKind::Producer).len(), 1);
}

#[test]
fn toolbar_per_kind() {
    assert_eq!(toolbar(DocKind::Nodes, false), vec![ToolbarItem::Refresh]);
    let idle = toolbar(DocKind::Consumer, false);
    let live = toolbar(DocKind::Consumer, true);
    assert_eq!(idle.len() + 1, live.len());
    assert!(!idle.contains(&ToolbarItem::StopStream));
    assert_eq!(live[4], ToolbarItem::StopStream);
    assert_eq!(toolbar(DocKind::Topics, true)[0], ToolbarItem::TopicInput);
    assert_eq!(toolbar(DocKind::Producer, false)[3], ToolbarItem::Produce);
    assert_eq!(DocKind::Groups.extra_placeholder(), "group_placeholder");
    assert_eq!(DocKind::Acl.extra_placeholder(), "extra_placeholder");
}

#[test]
fn kind_icons() {
    assert_eq!(DocKind::Topics.icon(), "FileText");
    assert_eq!(DocKind::Consumer.icon(), "Inbox");
    assert_eq!(DocKind::Monitor.icon(), "ChartPie");
}

#[test]
fn sidebar_labels_only_when_expanded() {
    let open = sidebar_entries(false);
    assert_eq!(open.len(), 4);
    assert_eq!(open[0].id, "nav-open-connection");
    assert_eq!(open[0].label, Some("open_connection"));
    assert_eq!(open[3].icon, "PanelLeftClose");
    assert_eq!(open[3].label, None);
    let shut = sidebar_entries(true);
    assert!(shut.iter().all(|e| e.label.is_none()));
    assert_eq!(shut[3].icon, "PanelLeftOpen");
    assert_eq!(shut[1].icon, "Settings");
}
