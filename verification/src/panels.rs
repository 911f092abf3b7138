//! What the panels show, decided from the state: which icons and tabs are
//! active, the content of agent and project cards, the visible rows of the
//! file tree, the moves a kanban card offers, and the fixed texts of panels
//! and dialogs.
use vstd::prelude::*;
use crate::model::{
    ChatMessage, CreateDialog, FsNode, FsNodeView, LeftPanel, ProjectNodeView, RightTab,
    fs_seq_view, fs_view, lemma_fs_seq_view_index, lemma_fs_seq_view_len,
};
use crate::seqs::{first_where, lemma_first_where_is, lemma_first_where_none};
use crate::state::{State, StateView, as_index, project_has_id};
use crate::text::{owned, trim, trimmed};

verus! {

// ---------------------------------------------------------------------------
// Icon bar, drawer tabs, section titles, dialogs
// ---------------------------------------------------------------------------

/// The icon of `panel` is highlighted: that panel is the open one.
pub fn panel_active(state: &State, panel: LeftPanel) -> (r: bool)
    ensures
        r == (state.active_panel == Some(panel)),
{
    match state.active_panel {
        Some(p) => p == panel,
        None => false,
    }
}

/// The file icon is highlighted: the drawer is open on its Files tab.
pub fn files_active(state: &State) -> (r: bool)
    ensures
        r == (state.right_open && state.right_tab == RightTab::Files),
{
    state.right_open && state.right_tab == RightTab::Files
}

/// The drawer tab `tab` is the current one.
pub fn tab_active(state: &State, tab: RightTab) -> (r: bool)
    ensures
        r == (state.right_tab == tab),
{
    state.right_tab == tab
}

pub open spec fn section_title_spec(panel: LeftPanel) -> Seq<char> {
    match panel {
        LeftPanel::Cron => "定时任务"@,
        LeftPanel::Tools => "工具"@,
        LeftPanel::Learning => "学习"@,
        LeftPanel::Channels => "频道"@,
        LeftPanel::Usage => "用量分析"@,
        LeftPanel::Debug => "调试"@,
        LeftPanel::Gateway => "网关状态"@,
        _ => ""@,
    }
}

/// The heading of a left-panel section; agents and kanban have their own panels.
pub fn section_title(panel: LeftPanel) -> (r: &'static str)
    ensures
        r@ == section_title_spec(panel),
{
    match panel {
        LeftPanel::Cron => "定时任务",
        LeftPanel::Tools => "工具",
        LeftPanel::Learning => "学习",
        LeftPanel::Channels => "频道",
        LeftPanel::Usage => "用量分析",
        LeftPanel::Debug => "调试",
        LeftPanel::Gateway => "网关状态",
        _ => "",
    }
}

/// Title and subtitle of the create dialog.
pub fn dialog_texts(kind: CreateDialog) -> (r: (&'static str, &'static str))
    ensures
        kind == CreateDialog::Agent ==> r.0@ == "新建 Agent"@ && r.1@ == "只填昵称即可，ID 自动生成"@,
        kind == CreateDialog::Project ==> r.0@ == "新建项目"@ && r.1@ == "填写名称后创建项目"@,
{
    match kind {
        CreateDialog::Agent => ("新建 Agent", "只填昵称即可，ID 自动生成"),
        CreateDialog::Project => ("新建项目", "填写名称后创建项目"),
    }
}

/// Label of the "new" pill of a section header.
pub fn create_label(kind: Option<CreateDialog>) -> (r: &'static str)
    ensures
        kind == Some(CreateDialog::Agent) ==> r@ == "新建 Agent"@,
        kind == Some(CreateDialog::Project) ==> r@ == "新建项目"@,
        kind is None ==> r@ == ""@,
{
    match kind {
        Some(CreateDialog::Agent) => "新建 Agent",
        Some(CreateDialog::Project) => "新建项目",
        None => "",
    }
}

// ---------------------------------------------------------------------------
// Chat
// ---------------------------------------------------------------------------

/// The send button is lit: the input holds more than whitespace.
pub fn can_send(state: &State) -> (r: bool)
    ensures
        r == (trim(state.input@).len() > 0),
{
    let t = trimmed(state.input.as_str());
    !t.as_str().is_empty()
}

/// The message is the user's (shown on the right).
pub fn is_user_message(m: &ChatMessage) -> (r: bool)
    ensures
        r == (m.role@ == "user"@),
{
    crate::collections::str_eq(m.role.as_str(), "user")
}

// ---------------------------------------------------------------------------
// Settings
// ---------------------------------------------------------------------------

/// The switch `key` shows on: the key is known and on.
pub fn setting_on(state: &State, key: &str) -> (r: bool)
    ensures
        r == (state@.settings.dom().contains(key@) && state@.settings[key@]),
{
    match state.settings.get(key) {
        Some(v) => v,
        None => false,
    }
}

// ---------------------------------------------------------------------------
// Kanban
// ---------------------------------------------------------------------------

/// The columns a card of column `index` can move to: the one on its left and
/// the one on its right, where they exist.
pub fn move_targets(state: &State, index: usize) -> (r: (Option<String>, Option<String>))
    requires
        index < state.kanban_columns.len(),
    ensures
        r.0 matches Some(l) ==> index > 0 && l@ == state@.kanban_columns[index - 1].id,
        r.0 is None ==> index == 0,
        r.1 matches Some(t) ==> index + 1 < state.kanban_columns.len() && t@ == state@.kanban_columns[index + 1].id,
        r.1 is None ==> index + 1 == state.kanban_columns.len(),
{
    let left = if index > 0 {
        Some(state.kanban_columns[index - 1].id.clone())
    } else {
        None
    };
    let right = if index + 1 < state.kanban_columns.len() {
        Some(state.kanban_columns[index + 1].id.clone())
    } else {
        None
    };
    (left, right)
}

// ---------------------------------------------------------------------------
// Agent cards
// ---------------------------------------------------------------------------

/// What an agent card shows.
pub struct ProfileCard {
    /// The card is the selected agent.
    pub selected: bool,
    /// The id is shown in brackets after the name (it differs from the name).
    pub show_id: bool,
    /// The "default" badge.
    pub default_badge: bool,
    /// The model, or `None` for "no model configured".
    pub model: Option<String>,
    pub provider: Option<String>,
    pub skill_count: usize,
    /// The delete button: every agent but the default one.
    pub deletable: bool,
}

/// The card of agent `index`.
pub fn profile_card(state: &State, index: usize) -> (r: ProfileCard)
    requires
        index < state.profiles.len(),
    ensures
        ({
            let p = state@.profiles[index as int];
            &&& r.selected == (state@.selected_profile == p.id)
            &&& r.show_id == (p.display_name != p.id)
            &&& r.default_badge == p.is_default
            &&& crate::model::opt_view(r.model) == p.model
            &&& crate::model::opt_view(r.provider) == p.provider
            &&& r.skill_count == p.skill_count
            &&& r.deletable == !p.is_default
        }),
{
    let p = &state.profiles[index];
    let model = match &p.model {
        Some(m) => Some(m.clone()),
        None => None,
    };
    let provider = match &p.provider {
        Some(m) => Some(m.clone()),
        None => None,
    };
    ProfileCard {
        selected: crate::collections::str_eq(state.selected_profile.as_str(), p.id.as_str()),
        show_id: !crate::collections::str_eq(p.display_name.as_str(), p.id.as_str()),
        default_badge: p.is_default,
        model,
        provider,
        skill_count: p.skill_count,
        deletable: !p.is_default,
    }
}

// ---------------------------------------------------------------------------
// Project cards
// ---------------------------------------------------------------------------

/// The icon before a project's name.
#[derive(Debug, Clone)]
pub enum LeadIcon {
    /// The home bucket.
    House,
    /// A dot in the project's colour.
    ColorDot,
    /// The project's own icon, in its colour.
    Icon(String),
    /// The generic project icon.
    Folder,
}

pub enum LeadIconView {
    House,
    ColorDot,
    Icon(Seq<char>),
    Folder,
}

pub open spec fn lead_icon_spec(p: ProjectNodeView) -> LeadIconView {
    if p.is_no_project {
        LeadIconView::House
    } else if p.color is Some && p.icon is None {
        LeadIconView::ColorDot
    } else if p.icon is Some {
        LeadIconView::Icon(p.icon->0)
    } else {
        LeadIconView::Folder
    }
}

pub open spec fn lead_icon_view(i: LeadIcon) -> LeadIconView {
    match i {
        LeadIcon::House => LeadIconView::House,
        LeadIcon::ColorDot => LeadIconView::ColorDot,
        LeadIcon::Icon(s) => LeadIconView::Icon(s@),
        LeadIcon::Folder => LeadIconView::Folder,
    }
}

/// A session row of an expanded project.
pub struct PreviewRow {
    pub title: String,
    pub last_active: String,
    /// The row is the active session (highlighted).
    pub active: bool,
}

/// What a project card shows.
pub struct ProjectCard {
    pub selected: bool,
    pub expanded: bool,
    pub lead: LeadIcon,
    /// The "auto" badge (auto-discovered projects, not the home bucket).
    pub auto_badge: bool,
    /// The session count chip, for a project (not the home bucket) with sessions.
    pub count_chip: Option<usize>,
    /// The last-active time (not for the home bucket).
    pub show_time: bool,
    /// The preview rows when expanded; an empty list shows "no sessions".
    pub previews: Option<Vec<PreviewRow>>,
    /// The "more" menu (not for the home bucket).
    pub has_menu: bool,
}

pub open spec fn preview_ok(rows: Seq<PreviewRow>, p: ProjectNodeView, active: Option<Seq<char>>) -> bool {
    &&& rows.len() == p.preview_sessions.len()
    &&& forall|i: int|
        0 <= i < rows.len() ==> {
            &&& (#[trigger] rows[i]).title@ == p.preview_sessions[i].title
            &&& rows[i].last_active@ == p.preview_sessions[i].last_active
            &&& rows[i].active == (active == Some(p.preview_sessions[i].id))
        }
}

/// The card of project `index`.
pub fn project_card(state: &State, index: usize) -> (r: ProjectCard)
    requires
        index < state.projects.len(),
    ensures
        ({
            let s = state@;
            let p = s.projects[index as int];
            &&& r.selected == (s.selected_project == Some(p.id))
            &&& r.expanded == s.expanded_projects.contains(p.id)
            &&& lead_icon_view(r.lead) == lead_icon_spec(p)
            &&& r.auto_badge == (!p.is_no_project && p.is_auto)
            &&& r.count_chip == (if !p.is_no_project && p.session_count > 0 {
                Some(p.session_count as usize)
            } else {
                None::<usize>
            })
            &&& r.show_time == !p.is_no_project
            &&& r.has_menu == !p.is_no_project
            &&& r.expanded ==> (r.previews matches Some(rows) && preview_ok(rows@, p, s.active_session))
            &&& !r.expanded ==> r.previews is None
        }),
{
    let p = &state.projects[index];
    let ghost pv = state@.projects[index as int];
    let selected = match &state.selected_project {
        Some(sel) => crate::collections::str_eq(sel.as_str(), p.id.as_str()),
        None => false,
    };
    let expanded = state.expanded_projects.contains(p.id.as_str());
    let lead = if p.is_no_project {
        LeadIcon::House
    } else if p.color.is_some() && p.icon.is_none() {
        LeadIcon::ColorDot
    } else {
        match &p.icon {
            Some(ic) => LeadIcon::Icon(ic.clone()),
            None => LeadIcon::Folder,
        }
    };
    let previews = if expanded {
        let mut rows: Vec<PreviewRow> = Vec::new();
        let mut i: usize = 0;
        while i < p.preview_sessions.len()
            invariant
                i <= p.preview_sessions.len(),
                pv == p@,
                rows@.len() == i,
                forall|j: int|
                    0 <= j < i ==> {
                        &&& (#[trigger] rows@[j]).title@ == pv.preview_sessions[j].title
                        &&& rows@[j].last_active@ == pv.preview_sessions[j].last_active
                        &&& rows@[j].active == (state@.active_session == Some(pv.preview_sessions[j].id))
                    },
            decreases p.preview_sessions.len() - i,
        {
            let sp = &p.preview_sessions[i];
            proof {
                assert(pv.preview_sessions[i as int] == sp@);
            }
            let active = match &state.active_session {
                Some(a) => crate::collections::str_eq(a.as_str(), sp.id.as_str()),
                None => false,
            };
            rows.push(PreviewRow { title: sp.title.clone(), last_active: sp.last_active.clone(), active });
            i += 1;
        }
        Some(rows)
    } else {
        None
    };
    ProjectCard {
        selected,
        expanded,
        lead,
        auto_badge: !p.is_no_project && p.is_auto,
        count_chip: if !p.is_no_project && p.session_count > 0 {
            Some(p.session_count)
        } else {
            None
        },
        show_time: !p.is_no_project,
        previews,
        has_menu: !p.is_no_project,
    }
}

/// The project shown in the drill-down view: the first project whose id is
/// the drill-down id, if the view is open and such a project exists.
pub fn drill_target(state: &State) -> (r: Option<usize>)
    ensures
        match state@.drill_project {
            Some(id) => as_index(r) == first_where(state@.projects, project_has_id(id)),
            None => r is None,
        },
        r matches Some(i) ==> i < state.projects.len(),
{
    match &state.drill_project {
        Some(id) => {
            let ghost pv = state@.projects;
            proof {
                assert(state@.drill_project == Some(id@));
            }
            let mut i: usize = 0;
            while i < state.projects.len()
                invariant
                    i <= state.projects.len(),
                    pv == state@.projects,
                    state@.drill_project == Some(id@),
                    forall|j: int| 0 <= j < i ==> !project_has_id(id@)(#[trigger] pv[j]),
                decreases state.projects.len() - i,
            {
                proof {
                    assert(pv[i as int] == state.projects@[i as int]@);
                }
                if crate::collections::str_eq(state.projects[i].id.as_str(), id.as_str()) {
                    proof {
                        lemma_first_where_is(pv, project_has_id(id@), i as int);
                    }
                    return Some(i);
                }
                i += 1;
            }
            proof {
                lemma_first_where_none(pv, project_has_id(id@));
            }
            None
        },
        None => None,
    }
}

// ---------------------------------------------------------------------------
// File tree
// ---------------------------------------------------------------------------

/// The rows of the file tree from the top: each node at its depth, followed
/// by the rows of its children when it is an expanded directory.
pub open spec fn visible_rows(nodes: Seq<FsNodeView>, depth: int, expanded: Set<Seq<char>>) -> Seq<(int, FsNodeView)>
    decreases nodes,
{
    if nodes.len() == 0 {
        Seq::empty()
    } else {
        let n = nodes[0];
        let kids = if n.is_dir && expanded.contains(n.path) {
            match n.children {
                Some(c) => visible_rows(c, depth + 1, expanded),
                None => Seq::empty(),
            }
        } else {
            Seq::empty()
        };
        seq![(depth, n)] + kids + visible_rows(nodes.drop_first(), depth, expanded)
    }
}

/// Nesting depth of a file tree.
pub open spec fn fs_height(nodes: Seq<FsNodeView>) -> nat
    decreases nodes,
{
    if nodes.len() == 0 {
        0
    } else {
        let h0: nat = match nodes[0].children {
            Some(c) => 1 + fs_height(c),
            None => 1,
        };
        let h1 = fs_height(nodes.drop_first());
        if h0 > h1 {
            h0
        } else {
            h1
        }
    }
}

/// A visible row of the file tree.
pub struct FileRow {
    pub depth: usize,
    pub name: String,
    pub path: String,
    pub is_dir: bool,
    /// The directory is expanded (open folder icon, down chevron).
    pub is_open: bool,
    /// The file is the selected one.
    pub selected: bool,
}

pub struct FileRowView {
    pub depth: int,
    pub name: Seq<char>,
    pub path: Seq<char>,
    pub is_dir: bool,
    pub is_open: bool,
    pub selected: bool,
}

impl View for FileRow {
    type V = FileRowView;

    open spec fn view(&self) -> FileRowView {
        FileRowView {
            depth: self.depth as int,
            name: self.name@,
            path: self.path@,
            is_dir: self.is_dir,
            is_open: self.is_open,
            selected: self.selected,
        }
    }
}

/// The row shown for `n` at `depth`.
pub open spec fn row_of(r: (int, FsNodeView), expanded: Set<Seq<char>>, selected: Option<Seq<char>>) -> FileRowView {
    FileRowView {
        depth: r.0,
        name: r.1.name,
        path: r.1.path,
        is_dir: r.1.is_dir,
        is_open: expanded.contains(r.1.path),
        selected: selected == Some(r.1.path),
    }
}

pub open spec fn rows_spec(rows: Seq<(int, FsNodeView)>, s: StateView) -> Seq<FileRowView> {
    rows.map_values(|r: (int, FsNodeView)| row_of(r, s.expanded_dirs, s.selected_file))
}

pub open spec fn file_rows_view(v: Seq<FileRow>) -> Seq<FileRowView> {
    v.map_values(|r: FileRow| r@)
}

proof fn lemma_rows_spec_add(a: Seq<(int, FsNodeView)>, b: Seq<(int, FsNodeView)>, s: StateView)
    ensures
        rows_spec(a + b, s) == rows_spec(a, s) + rows_spec(b, s),
{
    assert(rows_spec(a + b, s) =~= rows_spec(a, s) + rows_spec(b, s));
}

proof fn lemma_height_skip(nodes: Seq<FsNodeView>, i: int)
    requires
        0 <= i < nodes.len(),
    ensures
        fs_height(nodes.skip(i + 1)) <= fs_height(nodes.skip(i)),
        nodes.skip(i)[0].children matches Some(c) ==> 1 + fs_height(c) <= fs_height(nodes.skip(i)),
{
    assert(nodes.skip(i).drop_first() =~= nodes.skip(i + 1));
}

fn walk(
    nodes: &Vec<FsNode>,
    depth: usize,
    state: &State,
    out: &mut Vec<FileRow>,
)
    requires
        depth + fs_height(fs_seq_view(nodes@)) <= usize::MAX,
    ensures
        file_rows_view(final(out)@) == file_rows_view(old(out)@) + rows_spec(
            visible_rows(fs_seq_view(nodes@), depth as int, state@.expanded_dirs),
            state@,
        ),
    decreases fs_seq_view(nodes@),
{
    let ghost nv = fs_seq_view(nodes@);
    let ghost total = file_rows_view(out@) + rows_spec(visible_rows(nv, depth as int, state@.expanded_dirs), state@);
    let mut i: usize = 0;
    proof {
        assert(nv.skip(0) =~= nv);
        lemma_fs_seq_view_len(nodes@);
    }
    while i < nodes.len()
        invariant
            i <= nodes.len(),
            nv == fs_seq_view(nodes@),
            nv.len() == nodes@.len(),
            depth + fs_height(nv.skip(i as int)) <= usize::MAX,
            total == file_rows_view(out@) + rows_spec(visible_rows(nv.skip(i as int), depth as int, state@.expanded_dirs), state@),
        decreases nodes.len() - i,
    {
        let n = &nodes[i];
        proof {
            lemma_fs_seq_view_index(nodes@, i as int);
            lemma_height_skip(nv, i as int);
        }
        let ghost rest = nv.skip(i as int);
        let ghost before = file_rows_view(out@);
        let is_open = state.expanded_dirs.contains(n.path.as_str());
        let selected = match &state.selected_file {
            Some(f) => crate::collections::str_eq(f.as_str(), n.path.as_str()),
            None => false,
        };
        out.push(FileRow {
            depth,
            name: n.name.clone(),
            path: n.path.clone(),
            is_dir: n.is_dir,
            is_open,
            selected,
        });
        proof {
            assert(file_rows_view(out@) =~= before + seq![row_of((depth as int, rest[0]), state@.expanded_dirs, state@.selected_file)]);
        }
        let ghost mid = file_rows_view(out@);
        if n.is_dir && is_open {
            match &n.children {
                Some(kids) => {
                    proof {
                        assert(rest[0].children == Some(fs_seq_view(kids@)));
                    }
                    walk(kids, depth + 1, state, out);
                },
                None => {},
            }
        }
        proof {
            let kids_rows = if rest[0].is_dir && state@.expanded_dirs.contains(rest[0].path) {
                match rest[0].children {
                    Some(c) => visible_rows(c, depth + 1, state@.expanded_dirs),
                    None => Seq::empty(),
                }
            } else {
                Seq::empty()
            };
            assert(rest.drop_first() =~= nv.skip(i + 1));
            assert(visible_rows(rest, depth as int, state@.expanded_dirs) == seq![(depth as int, rest[0])] + kids_rows
                + visible_rows(nv.skip(i + 1), depth as int, state@.expanded_dirs));
            lemma_rows_spec_add(seq![(depth as int, rest[0])] + kids_rows, visible_rows(nv.skip(i + 1), depth as int, state@.expanded_dirs), state@);
            lemma_rows_spec_add(seq![(depth as int, rest[0])], kids_rows, state@);
            assert(rows_spec(seq![(depth as int, rest[0])], state@) =~= seq![row_of((depth as int, rest[0]), state@.expanded_dirs, state@.selected_file)]);
            assert(file_rows_view(out@) == mid + rows_spec(kids_rows, state@));
        }
        i += 1;
    }
    proof {
        assert(nv.skip(i as int) =~= Seq::<FsNodeView>::empty());
        assert(rows_spec(Seq::<(int, FsNodeView)>::empty(), state@) =~= Seq::<FileRowView>::empty());
    }
}

proof fn lemma_height_skip_all(nodes: Seq<FsNodeView>, i: int)
    requires
        0 <= i <= nodes.len(),
    ensures
        fs_height(nodes.skip(i)) <= fs_height(nodes),
    decreases i,
{
    if i > 0 {
        lemma_height_skip(nodes, i - 1);
        lemma_height_skip_all(nodes, i - 1);
    } else {
        assert(nodes.skip(0) =~= nodes);
    }
}

/// The visible rows of the file tree, top to bottom, with their depth,
/// whether each directory is open and whether each file is selected.
pub fn file_rows(state: &State) -> (r: Vec<FileRow>)
    requires
        fs_height(state@.fs_nodes) <= usize::MAX,
    ensures
        file_rows_view(r@) == rows_spec(visible_rows(state@.fs_nodes, 0, state@.expanded_dirs), state@),
{
    let mut out: Vec<FileRow> = Vec::new();
    walk(&state.fs_nodes, 0, state, &mut out);
    proof {
        assert(file_rows_view(Seq::<FileRow>::empty()) =~= Seq::<FileRowView>::empty());
        assert(Seq::<FileRowView>::empty() + rows_spec(visible_rows(state@.fs_nodes, 0, state@.expanded_dirs), state@)
            =~= rows_spec(visible_rows(state@.fs_nodes, 0, state@.expanded_dirs), state@));
    }
    out
}

/// The nesting depth of the file tree, if it fits in a `usize`.
pub fn tree_height(nodes: &Vec<FsNode>) -> (r: Option<usize>)
    ensures
        r matches Some(h) ==> h == fs_height(fs_seq_view(nodes@)),
        r is None ==> fs_height(fs_seq_view(nodes@)) > usize::MAX,
    decreases fs_seq_view(nodes@),
{
    let ghost nv = fs_seq_view(nodes@);
    let mut h: usize = 0;
    let mut i: usize = nodes.len();
    proof {
        lemma_fs_seq_view_len(nodes@);
        assert(nv.skip(i as int) =~= Seq::<FsNodeView>::empty());
    }
    while i > 0
        invariant
            i <= nodes.len(),
            nv == fs_seq_view(nodes@),
            nv.len() == nodes@.len(),
            h == fs_height(nv.skip(i as int)),
        decreases i,
    {
        i -= 1;
        proof {
            lemma_fs_seq_view_index(nodes@, i as int);
            assert(nv.skip(i as int).drop_first() =~= nv.skip(i + 1));
        }
        let n = &nodes[i];
        let h0: usize = match &n.children {
            Some(kids) => {
                proof {
                    assert(nv[i as int].children == Some(fs_seq_view(kids@)));
                    assert(nv.skip(i as int)[0].children == Some(fs_seq_view(kids@)));
                    lemma_height_skip(nv, i as int);
                    lemma_height_skip_all(nv, i as int);
                }
                match tree_height(kids) {
                    Some(k) => {
                        if k == usize::MAX {
                            return None;
                        }
                        k + 1
                    },
                    None => {
                        return None;
                    },
                }
            },
            None => 1,
        };
        if h0 > h {
            h = h0;
        }
    }
    proof {
        assert(nv.skip(0) =~= nv);
    }
    Some(h)
}

// ---------------------------------------------------------------------------
// Icons
// ---------------------------------------------------------------------------

/// Path of the SVG icon `name`, relative to the package root.
pub fn icon_relative_path(name: &str) -> (r: String)
    ensures
        r@ == "assets/icons/"@ + name@ + ".svg"@,
{
    let head = crate::text::concat("assets/icons/", name);
    crate::text::concat(head.as_str(), ".svg")
}

} // verus!
