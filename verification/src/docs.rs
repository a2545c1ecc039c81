//! The kinds of document that a session's tabs show.
use vstd::prelude::*;
use crate::text::str_eq;

verus! {

/// What a tab shows.
#[derive(Clone, Copy, Debug, PartialEq, Eq, Structural)]
pub enum DocKind {
    Topics,
    Nodes,
    Groups,
    Acl,
    Sr,
    Monitor,
    Producer,
    Consumer,
}

/// The name under which a kind is stored.
pub open spec fn kind_name(k: DocKind) -> Seq<char> {
    match k {
        DocKind::Topics => "topics"@,
        DocKind::Nodes => "nodes"@,
        DocKind::Groups => "groups"@,
        DocKind::Acl => "acl"@,
        DocKind::Sr => "sr"@,
        DocKind::Monitor => "monitor"@,
        DocKind::Producer => "producer"@,
        DocKind::Consumer => "consumer"@,
    }
}

/// The kind stored under a name, if any.
pub open spec fn kind_of_name(n: Seq<char>) -> Option<DocKind> {
    if n == "topics"@ {
        Some(DocKind::Topics)
    } else if n == "nodes"@ {
        Some(DocKind::Nodes)
    } else if n == "groups"@ {
        Some(DocKind::Groups)
    } else if n == "acl"@ {
        Some(DocKind::Acl)
    } else if n == "sr"@ {
        Some(DocKind::Sr)
    } else if n == "monitor"@ {
        Some(DocKind::Monitor)
    } else if n == "producer"@ {
        Some(DocKind::Producer)
    } else if n == "consumer"@ {
        Some(DocKind::Consumer)
    } else {
        None
    }
}

/// Kinds of which each opening makes a tab of its own; every other kind is
/// shown at most once per session.
pub open spec fn opens_new_tab(k: DocKind) -> bool {
    k == DocKind::Producer || k == DocKind::Consumer
}

impl DocKind {
    /// The stored name.
    pub fn as_str(self) -> (r: &'static str)
        ensures
            r@ == kind_name(self),
    {
        match self {
            DocKind::Topics => "topics",
            DocKind::Nodes => "nodes",
            DocKind::Groups => "groups",
            DocKind::Acl => "acl",
            DocKind::Sr => "sr",
            DocKind::Monitor => "monitor",
            DocKind::Producer => "producer",
            DocKind::Consumer => "consumer",
        }
    }

    /// The kind with a stored name.
    pub fn from_name(name: &str) -> (r: Option<DocKind>)
        ensures
            r == kind_of_name(name@),
    {
        if str_eq(name, "topics") {
            Some(DocKind::Topics)
        } else if str_eq(name, "nodes") {
            Some(DocKind::Nodes)
        } else if str_eq(name, "groups") {
            Some(DocKind::Groups)
        } else if str_eq(name, "acl") {
            Some(DocKind::Acl)
        } else if str_eq(name, "sr") {
            Some(DocKind::Sr)
        } else if str_eq(name, "monitor") {
            Some(DocKind::Monitor)
        } else if str_eq(name, "producer") {
            Some(DocKind::Producer)
        } else if str_eq(name, "consumer") {
            Some(DocKind::Consumer)
        } else {
            None
        }
    }

    /// Every kind, in the order of the navigation.
    pub fn all_nav() -> (r: [DocKind; 8])
        ensures
            r@ == seq![
                DocKind::Topics,
                DocKind::Nodes,
                DocKind::Groups,
                DocKind::Acl,
                DocKind::Sr,
                DocKind::Monitor,
                DocKind::Producer,
                DocKind::Consumer,
            ],
    {
        let r = [
            DocKind::Topics,
            DocKind::Nodes,
            DocKind::Groups,
            DocKind::Acl,
            DocKind::Sr,
            DocKind::Monitor,
            DocKind::Producer,
            DocKind::Consumer,
        ];
        assert(r@ =~= seq![
            DocKind::Topics,
            DocKind::Nodes,
            DocKind::Groups,
            DocKind::Acl,
            DocKind::Sr,
            DocKind::Monitor,
            DocKind::Producer,
            DocKind::Consumer,
        ]);
        r
    }

    /// Whether each opening of this kind makes a tab of its own; the
    /// producer and consumer panes also pick their topic from a list.
    pub fn opens_new_tab(self) -> (r: bool)
        ensures
            r == opens_new_tab(self),
            r == (self == DocKind::Producer || self == DocKind::Consumer),
    {
        match self {
            DocKind::Producer | DocKind::Consumer => true,
            _ => false,
        }
    }
}

/// A column of a pane's table: its id, the key of its label, its width in
/// whole pixels, and whether it sorts and holds numbers.
#[derive(Clone, Copy, Debug)]
pub struct ColumnSpec {
    pub id: &'static str,
    pub label: &'static str,
    pub width: u32,
    pub sortable: bool,
    pub numeric: bool,
}

/// A column as plain values: id, label key, width, sortable, numeric.
pub open spec fn column_view(c: ColumnSpec) -> (Seq<char>, Seq<char>, u32, bool, bool) {
    (c.id@, c.label@, c.width, c.sortable, c.numeric)
}

/// The columns of each kind's table, left to right.
pub open spec fn kind_columns(k: DocKind) -> Seq<(Seq<char>, Seq<char>, u32, bool, bool)> {
    match k {
        DocKind::Topics => seq![
            ("name"@, "col_name"@, 220u32, true, false),
            ("partitions"@, "col_partitions"@, 90u32, true, true),
            ("replication"@, "col_replication"@, 90u32, true, true),
            ("error"@, "col_error"@, 200u32, false, false),
        ],
        DocKind::Nodes => seq![
            ("id"@, "col_id"@, 80u32, true, true),
            ("host"@, "col_host"@, 240u32, true, false),
            ("port"@, "col_port"@, 80u32, true, true),
        ],
        DocKind::Groups => seq![
            ("id"@, "col_id"@, 240u32, true, false),
            ("state"@, "col_state"@, 120u32, false, false),
            ("protocol"@, "col_protocol"@, 120u32, false, false),
        ],
        DocKind::Acl => seq![
            ("principal"@, "col_principal"@, 180u32, false, false),
            ("op"@, "col_operation"@, 120u32, false, false),
            ("perm"@, "col_permission"@, 100u32, false, false),
            ("resource"@, "col_resource"@, 200u32, false, false),
        ],
        DocKind::Sr => seq![("subject"@, "col_subject"@, 280u32, true, false)],
        DocKind::Monitor => seq![
            ("topic"@, "col_topic"@, 160u32, false, false),
            ("partition"@, "col_partition"@, 80u32, false, true),
            ("offset"@, "col_offset"@, 100u32, false, true),
            ("lag"@, "col_lag"@, 100u32, false, true),
        ],
        DocKind::Consumer => seq![
            ("topic"@, "col_topic"@, 160u32, false, false),
            ("partition"@, "col_partition"@, 80u32, false, true),
            ("offset"@, "col_offset"@, 100u32, false, true),
            ("time"@, "col_time"@, 180u32, false, false),
            ("key"@, "col_key"@, 140u32, false, false),
            ("value"@, "col_value"@, 320u32, false, false),
        ],
        DocKind::Producer => seq![("info"@, "col_info"@, 400u32, false, false)],
    }
}

fn column(id: &'static str, label: &'static str, width: u32, sortable: bool, numeric: bool) -> (c: ColumnSpec)
    ensures
        column_view(c) == (id@, label@, width, sortable, numeric),
{
    ColumnSpec { id, label, width, sortable, numeric }
}

/// The columns of a kind's table.
pub fn columns_for(kind: DocKind) -> (r: Vec<ColumnSpec>)
    ensures
        r@.map_values(|c: ColumnSpec| column_view(c)) == kind_columns(kind),
{
    let r = match kind {
        DocKind::Topics => vec![
            column("name", "col_name", 220, true, false),
            column("partitions", "col_partitions", 90, true, true),
            column("replication", "col_replication", 90, true, true),
            column("error", "col_error", 200, false, false),
        ],
        DocKind::Nodes => vec![
            column("id", "col_id", 80, true, true),
            column("host", "col_host", 240, true, false),
            column("port", "col_port", 80, true, true),
        ],
        DocKind::Groups => vec![
            column("id", "col_id", 240, true, false),
            column("state", "col_state", 120, false, false),
            column("protocol", "col_protocol", 120, false, false),
        ],
        DocKind::Acl => vec![
            column("principal", "col_principal", 180, false, false),
            column("op", "col_operation", 120, false, false),
            column("perm", "col_permission", 100, false, false),
            column("resource", "col_resource", 200, false, false),
        ],
        DocKind::Sr => vec![column("subject", "col_subject", 280, true, false)],
        DocKind::Monitor => vec![
            column("topic", "col_topic", 160, false, false),
            column("partition", "col_partition", 80, false, true),
            column("offset", "col_offset", 100, false, true),
            column("lag", "col_lag", 100, false, true),
        ],
        DocKind::Consumer => vec![
            column("topic", "col_topic", 160, false, false),
            column("partition", "col_partition", 80, false, true),
            column("offset", "col_offset", 100, false, true),
            column("time", "col_time", 180, false, false),
            column("key", "col_key", 140, false, false),
            column("value", "col_value", 320, false, false),
        ],
        DocKind::Producer => vec![column("info", "col_info", 400, false, false)],
    };
    assert(r@.map_values(|c: ColumnSpec| column_view(c)) =~= kind_columns(kind));
    r
}

/// A control of a pane's toolbar.
#[derive(Clone, Copy, Debug, PartialEq, Eq, Structural)]
pub enum ToolbarItem {
    TopicInput,
    TopicPicker,
    ExtraInput,
    BodyInput,
    Refresh,
    CreateTopic,
    DeleteTopic,
    AddPartitions,
    DeleteRecords,
    SaveTopicConfig,
    Produce,
    Poll,
    Stream,
    StopStream,
    FromBeginning,
    Commit,
    Search,
    ExportCsv,
    ExportJson,
    Replay,
    ResetOffsets,
    DeleteGroup,
    DeleteSubject,
    SetCompatibility,
    CreateAcl,
    DeleteAcl,
}

/// The controls of a kind's toolbar, left to right; the consumer's stop
/// button shows only while it streams.
pub open spec fn toolbar_of(k: DocKind, streaming: bool) -> Seq<ToolbarItem> {
    match k {
        DocKind::Topics => seq![
            ToolbarItem::TopicInput,
            ToolbarItem::Refresh,
            ToolbarItem::CreateTopic,
            ToolbarItem::DeleteTopic,
            ToolbarItem::ExtraInput,
            ToolbarItem::AddPartitions,
            ToolbarItem::DeleteRecords,
            ToolbarItem::SaveTopicConfig,
        ],
        DocKind::Producer => seq![
            ToolbarItem::TopicPicker,
            ToolbarItem::ExtraInput,
            ToolbarItem::BodyInput,
            ToolbarItem::Produce,
        ],
        DocKind::Consumer => seq![
            ToolbarItem::TopicPicker,
            ToolbarItem::ExtraInput,
            ToolbarItem::Poll,
            ToolbarItem::Stream,
        ] + (if streaming {
            seq![ToolbarItem::StopStream]
        } else {
            Seq::empty()
        }) + seq![
            ToolbarItem::FromBeginning,
            ToolbarItem::Commit,
            ToolbarItem::Search,
            ToolbarItem::ExportCsv,
            ToolbarItem::ExportJson,
            ToolbarItem::Replay,
        ],
        DocKind::Groups => seq![
            ToolbarItem::ExtraInput,
            ToolbarItem::TopicInput,
            ToolbarItem::Refresh,
            ToolbarItem::ResetOffsets,
            ToolbarItem::DeleteGroup,
        ],
        DocKind::Sr => seq![
            ToolbarItem::TopicInput,
            ToolbarItem::ExtraInput,
            ToolbarItem::Refresh,
            ToolbarItem::DeleteSubject,
            ToolbarItem::SetCompatibility,
        ],
        DocKind::Nodes => seq![ToolbarItem::Refresh],
        DocKind::Monitor => seq![ToolbarItem::Refresh],
        DocKind::Acl => seq![
            ToolbarItem::ExtraInput,
            ToolbarItem::TopicInput,
            ToolbarItem::Refresh,
            ToolbarItem::CreateAcl,
            ToolbarItem::DeleteAcl,
        ],
    }
}

/// The controls that a kind's toolbar shows.
pub fn toolbar(kind: DocKind, streaming: bool) -> (r: Vec<ToolbarItem>)
    ensures
        r@ == toolbar_of(kind, streaming),
{
    let r = match kind {
        DocKind::Topics => vec![
            ToolbarItem::TopicInput,
            ToolbarItem::Refresh,
            ToolbarItem::CreateTopic,
            ToolbarItem::DeleteTopic,
            ToolbarItem::ExtraInput,
            ToolbarItem::AddPartitions,
            ToolbarItem::DeleteRecords,
            ToolbarItem::SaveTopicConfig,
        ],
        DocKind::Producer => vec![
            ToolbarItem::TopicPicker,
            ToolbarItem::ExtraInput,
            ToolbarItem::BodyInput,
            ToolbarItem::Produce,
        ],
        DocKind::Consumer => {
            let mut v = vec![
                ToolbarItem::TopicPicker,
                ToolbarItem::ExtraInput,
                ToolbarItem::Poll,
                ToolbarItem::Stream,
            ];
            if streaming {
                v.push(ToolbarItem::StopStream);
            }
            v.push(ToolbarItem::FromBeginning);
            v.push(ToolbarItem::Commit);
            v.push(ToolbarItem::Search);
            v.push(ToolbarItem::ExportCsv);
            v.push(ToolbarItem::ExportJson);
            v.push(ToolbarItem::Replay);
            v
        },
        DocKind::Groups => vec![
            ToolbarItem::ExtraInput,
            ToolbarItem::TopicInput,
            ToolbarItem::Refresh,
            ToolbarItem::ResetOffsets,
            ToolbarItem::DeleteGroup,
        ],
        DocKind::Sr => vec![
            ToolbarItem::TopicInput,
            ToolbarItem::ExtraInput,
            ToolbarItem::Refresh,
            ToolbarItem::DeleteSubject,
            ToolbarItem::SetCompatibility,
        ],
        DocKind::Nodes => vec![ToolbarItem::Refresh],
        DocKind::Monitor => vec![ToolbarItem::Refresh],
        DocKind::Acl => vec![
            ToolbarItem::ExtraInput,
            ToolbarItem::TopicInput,
            ToolbarItem::Refresh,
            ToolbarItem::CreateAcl,
            ToolbarItem::DeleteAcl,
        ],
    };
    assert(r@ =~= toolbar_of(kind, streaming));
    r
}

/// The name of the icon that stands for a kind in the navigation.
pub open spec fn icon_of(k: DocKind) -> Seq<char> {
    match k {
        DocKind::Topics => "FileText"@,
        DocKind::Nodes => "HardDrive"@,
        DocKind::Groups => "User"@,
        DocKind::Acl => "Asterisk"@,
        DocKind::Sr => "BookOpen"@,
        DocKind::Monitor => "ChartPie"@,
        DocKind::Producer => "ArrowUp"@,
        DocKind::Consumer => "Inbox"@,
    }
}

impl DocKind {
    /// The name of the kind's icon.
    pub fn icon(self) -> (r: &'static str)
        ensures
            r@ == icon_of(self),
    {
        match self {
            DocKind::Topics => "FileText",
            DocKind::Nodes => "HardDrive",
            DocKind::Groups => "User",
            DocKind::Acl => "Asterisk",
            DocKind::Sr => "BookOpen",
            DocKind::Monitor => "ChartPie",
            DocKind::Producer => "ArrowUp",
            DocKind::Consumer => "Inbox",
        }
    }
}

/// An entry of the sidebar: its id, the name of its icon, and the key of
/// its label where it shows one.
#[derive(Clone, Copy, Debug)]
pub struct SidebarEntry {
    pub id: &'static str,
    pub icon: &'static str,
    pub label: Option<&'static str>,
}

/// An entry as plain values.
pub open spec fn entry_view(e: SidebarEntry) -> (Seq<char>, Seq<char>, Option<Seq<char>>) {
    (
        e.id@,
        e.icon@,
        match e.label {
            Some(l) => Some(l@),
            None => None,
        },
    )
}

/// The sidebar from top to bottom: opening a connection, then (below a
/// gap) the preferences, the about page and the collapse switch. A
/// collapsed sidebar shows icons only, and its switch points the other way.
pub open spec fn sidebar_of(collapsed: bool) -> Seq<(Seq<char>, Seq<char>, Option<Seq<char>>)> {
    let label = |k: Seq<char>| if collapsed {
        None::<Seq<char>>
    } else {
        Some(k)
    };
    seq![
        ("nav-open-connection"@, "Plus"@, label("open_connection"@)),
        ("nav-settings"@, "Settings"@, label("preferences"@)),
        ("nav-about"@, "Info"@, label("about"@)),
        ("nav-collapse"@, if collapsed {
            "PanelLeftOpen"@
        } else {
            "PanelLeftClose"@
        }, None::<Seq<char>>),
    ]
}

fn entry(id: &'static str, icon: &'static str, label: &'static str, collapsed: bool) -> (e: SidebarEntry)
    ensures
        entry_view(e) == (id@, icon@, if collapsed {
            None::<Seq<char>>
        } else {
            Some(label@)
        }),
{
    SidebarEntry {
        id,
        icon,
        label: if collapsed {
            None
        } else {
            Some(label)
        },
    }
}

/// The entries of the sidebar.
pub fn sidebar_entries(collapsed: bool) -> (r: Vec<SidebarEntry>)
    ensures
        r@.map_values(|e: SidebarEntry| entry_view(e)) == sidebar_of(collapsed),
{
    let mut r = Vec::new();
    r.push(entry("nav-open-connection", "Plus", "open_connection", collapsed));
    r.push(entry("nav-settings", "Settings", "preferences", collapsed));
    r.push(entry("nav-about", "Info", "about", collapsed));
    r.push(
        SidebarEntry {
            id: "nav-collapse",
            icon: if collapsed {
                "PanelLeftOpen"
            } else {
                "PanelLeftClose"
            },
            label: None,
        },
    );
    assert(r@.map_values(|e: SidebarEntry| entry_view(e)) =~= sidebar_of(collapsed));
    r
}

/// The label key of a pane's extra field: the group for the groups pane.
pub open spec fn extra_placeholder_of(k: DocKind) -> Seq<char> {
    if k == DocKind::Groups {
        "group_placeholder"@
    } else {
        "extra_placeholder"@
    }
}

impl DocKind {
    /// The label key of the pane's extra field.
    pub fn extra_placeholder(self) -> (r: &'static str)
        ensures
            r@ == extra_placeholder_of(self),
    {
        match self {
            DocKind::Groups => "group_placeholder",
            _ => "extra_placeholder",
        }
    }
}

/// A kind's stored name reads back as that kind.
pub proof fn lemma_kind_name_roundtrip(k: DocKind)
    ensures
        kind_of_name(kind_name(k)) == Some(k),
{
    reveal_strlit("topics");
    reveal_strlit("nodes");
    reveal_strlit("groups");
    reveal_strlit("acl");
    reveal_strlit("sr");
    reveal_strlit("monitor");
    reveal_strlit("producer");
    reveal_strlit("consumer");
    assert("topics"@[0] == 't' && "nodes"@[0] == 'n' && "groups"@[0] == 'g' && "acl"@[0] == 'a'
        && "sr"@[0] == 's' && "monitor"@[0] == 'm' && "producer"@[0] == 'p' && "consumer"@[0]
        == 'c');
}

/// A name that reads as a kind is that kind's stored name.
pub proof fn lemma_name_kind_roundtrip(n: Seq<char>)
    ensures
        kind_of_name(n) matches Some(k) ==> kind_name(k) == n,
{
}

} // verus!
