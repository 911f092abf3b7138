//! The workbench state, the messages it reacts to, and the transition
//! function `update` that decides the next state and the effect to perform.
use vstd::prelude::*;
use crate::collections::{Settings, StrSet};
use crate::model::{
    AgentProfile, AgentProfileView, CardStatus, ChatMessage, ChatMessageView, CreateDialog,
    FsNode, FsNodeView, Keyed, KanbanCard, KanbanCardView, KanbanColumn, KanbanColumnView, LeftPanel, Overlay,
    ProjectNode, ProjectNodeView, RightTab, SessionPreviewView, RepoNodeView, cards_view, fs_seq_view,
};
use crate::seqs::{
    any_where, first_where, lemma_any_where, lemma_first_where, lemma_first_where_is, lemma_first_where_map,
    lemma_first_where_none,
};
use crate::text::{concat, owned, trim, trimmed};

verus! {

/// Id of the scrollable of the agents panel; after a card is created the
/// panel is scrolled to its top so that the new card is visible.
pub const AGENTS_PANEL_SCROLL_ID: &'static str = "agents-panel-scroll";

/// What the user did.
#[derive(Debug, Clone)]
pub enum Message {
    /// Icon bar: open the left panel, or close it when it is the open one.
    ToggleLeftPanel(LeftPanel),
    /// File icon: toggle the right drawer on its Files tab.
    ToggleFiles,
    OpenRightTab(RightTab),
    CloseRight,
    OpenOverlay(Overlay),
    CloseOverlay,
    /// A click inside an overlay card: nothing happens.
    Dismiss,
    InputChanged(String),
    SendPressed,
    SelectProfile(String),
    ToggleProjectExpand(String),
    SelectProject(String),
    EnterDrill(String),
    ExitDrill,
    DeleteProfile(String),
    DeleteProject(String),
    OpenCreateDialog(CreateDialog),
    CloseCreateDialog,
    CreateInputChanged(String),
    ConfirmCreate,
    ToggleDir(String),
    SelectFile(String),
    /// `(card_id, target_column_id)`.
    MoveCard(String, String),
    ToggleSetting(String),
}

/// The effect that a transition asks the host to perform.
#[derive(Debug, Clone, Copy, PartialEq, Eq, Structural)]
pub enum Action {
    Idle,
    /// Scroll the agents panel (`AGENTS_PANEL_SCROLL_ID`) to its top.
    ScrollAgentsPanelToTop,
}

/// The whole workbench state.
pub struct State {
    pub active_panel: Option<LeftPanel>,
    pub right_open: bool,
    pub right_tab: RightTab,
    pub overlay: Option<Overlay>,
    pub input: String,
    pub messages: Vec<ChatMessage>,
    pub profiles: Vec<AgentProfile>,
    pub selected_profile: String,
    pub projects: Vec<ProjectNode>,
    pub expanded_projects: StrSet,
    pub selected_project: Option<String>,
    pub active_session: Option<String>,
    pub drill_project: Option<String>,
    pub create_dialog: Option<CreateDialog>,
    pub create_input: String,
    pub fs_root_name: String,
    pub fs_nodes: Vec<FsNode>,
    pub expanded_dirs: StrSet,
    pub selected_file: Option<String>,
    pub kanban_columns: Vec<KanbanColumn>,
    pub settings: Settings,
}

pub struct StateView {
    pub active_panel: Option<LeftPanel>,
    pub right_open: bool,
    pub right_tab: RightTab,
    pub overlay: Option<Overlay>,
    pub input: Seq<char>,
    pub messages: Seq<ChatMessageView>,
    pub profiles: Seq<AgentProfileView>,
    pub selected_profile: Seq<char>,
    pub projects: Seq<ProjectNodeView>,
    pub expanded_projects: Set<Seq<char>>,
    pub selected_project: Option<Seq<char>>,
    pub active_session: Option<Seq<char>>,
    pub drill_project: Option<Seq<char>>,
    pub create_dialog: Option<CreateDialog>,
    pub create_input: Seq<char>,
    pub fs_root_name: Seq<char>,
    pub fs_nodes: Seq<FsNodeView>,
    pub expanded_dirs: Set<Seq<char>>,
    pub selected_file: Option<Seq<char>>,
    pub kanban_columns: Seq<KanbanColumnView>,
    pub settings: Map<Seq<char>, bool>,
}

pub open spec fn opt_str(o: Option<String>) -> Option<Seq<char>> {
    match o {
        Some(s) => Some(s@),
        None => None,
    }
}

pub open spec fn messages_view(s: Seq<ChatMessage>) -> Seq<ChatMessageView> {
    s.map_values(|m: ChatMessage| m@)
}

pub open spec fn profiles_view(s: Seq<AgentProfile>) -> Seq<AgentProfileView> {
    s.map_values(|p: AgentProfile| p@)
}

pub open spec fn projects_view(s: Seq<ProjectNode>) -> Seq<ProjectNodeView> {
    s.map_values(|p: ProjectNode| p@)
}

pub open spec fn columns_view(s: Seq<KanbanColumn>) -> Seq<KanbanColumnView> {
    s.map_values(|c: KanbanColumn| c@)
}

impl View for State {
    type V = StateView;

    open spec fn view(&self) -> StateView {
        StateView {
            active_panel: self.active_panel,
            right_open: self.right_open,
            right_tab: self.right_tab,
            overlay: self.overlay,
            input: self.input@,
            messages: messages_view(self.messages@),
            profiles: profiles_view(self.profiles@),
            selected_profile: self.selected_profile@,
            projects: projects_view(self.projects@),
            expanded_projects: self.expanded_projects@,
            selected_project: opt_str(self.selected_project),
            active_session: opt_str(self.active_session),
            drill_project: opt_str(self.drill_project),
            create_dialog: self.create_dialog,
            create_input: self.create_input@,
            fs_root_name: self.fs_root_name@,
            fs_nodes: fs_seq_view(self.fs_nodes@),
            expanded_dirs: self.expanded_dirs@,
            selected_file: opt_str(self.selected_file),
            kanban_columns: columns_view(self.kanban_columns@),
            settings: self.settings@,
        }
    }
}

// ---------------------------------------------------------------------------
// The transition, stated over views
// ---------------------------------------------------------------------------

/// The reply that the (mock) assistant gives to `text`.
pub open spec fn echo_reply(text: Seq<char>) -> Seq<char> {
    "（演示）已收到你的消息：「"@ + text + "」。这是一段模拟回复，后端接入后将由真实 Agent 生成。"@
}

pub open spec fn profile_has_id(id: Seq<char>) -> spec_fn(AgentProfileView) -> bool {
    |p: AgentProfileView| p.id == id
}

pub open spec fn profile_lacks_id(id: Seq<char>) -> spec_fn(AgentProfileView) -> bool {
    |p: AgentProfileView| p.id != id
}

pub open spec fn project_has_id(id: Seq<char>) -> spec_fn(ProjectNodeView) -> bool {
    |p: ProjectNodeView| p.id == id
}

pub open spec fn project_lacks_id(id: Seq<char>) -> spec_fn(ProjectNodeView) -> bool {
    |p: ProjectNodeView| p.id != id
}

pub open spec fn project_is_home() -> spec_fn(ProjectNodeView) -> bool {
    |p: ProjectNodeView| p.is_no_project
}

pub open spec fn column_has_id(id: Seq<char>) -> spec_fn(KanbanColumnView) -> bool {
    |c: KanbanColumnView| c.id == id
}

pub open spec fn card_has_id(id: Seq<char>) -> spec_fn(KanbanCardView) -> bool {
    |c: KanbanCardView| c.id == id
}

pub open spec fn column_holds_card(id: Seq<char>) -> spec_fn(KanbanColumnView) -> bool {
    |c: KanbanColumnView| any_where(c.cards, card_has_id(id))
}

/// The agent that "create" makes from a name.
pub open spec fn new_agent(name: Seq<char>) -> AgentProfileView {
    AgentProfileView {
        id: name,
        display_name: name,
        color: None,
        has_avatar: false,
        avatar_key: None,
        is_default: false,
        model: None,
        provider: None,
        skill_count: 0,
    }
}

/// The project that "create" makes from a name.
pub open spec fn new_project(name: Seq<char>) -> ProjectNodeView {
    ProjectNodeView {
        id: name,
        label: name,
        path: Some("/projects/"@ + name),
        color: None,
        icon: None,
        is_auto: false,
        is_no_project: false,
        session_count: 0,
        last_active: "刚刚"@,
        preview_sessions: Seq::<SessionPreviewView>::empty(),
        repos: Seq::<RepoNodeView>::empty(),
    }
}

/// Where a new project goes: right after the home bucket, else first.
pub open spec fn new_project_index(projects: Seq<ProjectNodeView>) -> int {
    match first_where(projects, project_is_home()) {
        Some(i) => i + 1,
        None => 0,
    }
}

/// The first preview session of the first project with id `id`.
pub open spec fn first_session_of(projects: Seq<ProjectNodeView>, id: Seq<char>) -> Option<Seq<char>> {
    match first_where(projects, project_has_id(id)) {
        Some(i) => if projects[i].preview_sessions.len() > 0 {
            Some(projects[i].preview_sessions[0].id)
        } else {
            None
        },
        None => None,
    }
}

/// The selected agent after agents were removed: kept if it still exists,
/// else "default" if that exists, else the first agent, else empty.
pub open spec fn fallback_profile(profiles: Seq<AgentProfileView>, selected: Seq<char>) -> Seq<char> {
    if any_where(profiles, profile_has_id(selected)) {
        selected
    } else if any_where(profiles, profile_has_id("default"@)) {
        "default"@
    } else if profiles.len() > 0 {
        profiles[0].id
    } else {
        Seq::<char>::empty()
    }
}

/// The selected project after projects were removed: kept if it still
/// exists, else the first project (or none).
pub open spec fn fallback_project(projects: Seq<ProjectNodeView>, selected: Option<Seq<char>>) -> Option<Seq<char>> {
    match selected {
        Some(id) if any_where(projects, project_has_id(id)) => selected,
        _ => if projects.len() > 0 {
            Some(projects[0].id)
        } else {
            None
        },
    }
}

/// The status a card takes in the column with id `target`.
pub open spec fn status_for_column(target: Seq<char>, current: CardStatus) -> CardStatus {
    if target == "todo"@ {
        CardStatus::Todo
    } else if target == "doing"@ {
        CardStatus::Doing
    } else if target == "review"@ {
        CardStatus::Review
    } else if target == "done"@ {
        CardStatus::Done
    } else {
        current
    }
}

/// The board after the first card `card_id` (in the first column holding it)
/// is taken out and appended to the first column `target`; when no column
/// has id `target` the card is taken out and dropped.
pub open spec fn move_card(cols: Seq<KanbanColumnView>, card_id: Seq<char>, target: Seq<char>) -> Seq<KanbanColumnView> {
    match first_where(cols, column_holds_card(card_id)) {
        None => cols,
        Some(c) => {
            let cards = cols[c].cards;
            let k = first_where(cards, card_has_id(card_id))->0;
            let card = cards[k];
            let removed = cols.update(c, KanbanColumnView { cards: cards.remove(k), ..cols[c] });
            let moved = KanbanCardView { status: status_for_column(target, card.status), ..card };
            match first_where(removed, column_has_id(target)) {
                None => removed,
                Some(t) => removed.update(
                    t,
                    KanbanColumnView { cards: removed[t].cards.push(moved), ..removed[t] },
                ),
            }
        },
    }
}

pub open spec fn toggle_member(s: Set<Seq<char>>, x: Seq<char>) -> Set<Seq<char>> {
    if s.contains(x) {
        s.remove(x)
    } else {
        s.insert(x)
    }
}

/// The state after "confirm create".
pub open spec fn confirm_create(s: StateView) -> StateView {
    let name = trim(s.create_input);
    let closed = StateView { create_dialog: None, create_input: Seq::empty(), ..s };
    if name.len() == 0 {
        closed
    } else {
        match s.create_dialog {
            Some(CreateDialog::Agent) => StateView {
                profiles: seq![new_agent(name)] + s.profiles,
                selected_profile: name,
                ..closed
            },
            Some(CreateDialog::Project) => StateView {
                projects: s.projects.insert(new_project_index(s.projects), new_project(name)),
                selected_project: Some(name),
                expanded_projects: s.expanded_projects.insert(name),
                ..closed
            },
            None => closed,
        }
    }
}

/// The transition: the next state and the effect, for each message.
pub open spec fn step(s: StateView, m: Message) -> (StateView, Action) {
    match m {
        Message::ToggleLeftPanel(p) => (
            StateView {
                active_panel: if s.active_panel == Some(p) { None } else { Some(p) },
                ..s
            },
            Action::Idle,
        ),
        Message::ToggleFiles => (
            if s.right_open && s.right_tab == RightTab::Files {
                StateView { right_open: false, ..s }
            } else {
                StateView { right_open: true, right_tab: RightTab::Files, ..s }
            },
            Action::Idle,
        ),
        Message::OpenRightTab(t) => (StateView { right_open: true, right_tab: t, ..s }, Action::Idle),
        Message::CloseRight => (StateView { right_open: false, ..s }, Action::Idle),
        Message::OpenOverlay(o) => (StateView { overlay: Some(o), ..s }, Action::Idle),
        Message::CloseOverlay => (StateView { overlay: None, ..s }, Action::Idle),
        Message::Dismiss => (s, Action::Idle),
        Message::InputChanged(t) => (StateView { input: t@, ..s }, Action::Idle),
        Message::SendPressed => {
            let text = trim(s.input);
            if text.len() == 0 {
                (s, Action::Idle)
            } else {
                (
                    StateView {
                        messages: s.messages.push(ChatMessageView { role: "user"@, content: text }).push(
                            ChatMessageView { role: "assistant"@, content: echo_reply(text) },
                        ),
                        input: Seq::empty(),
                        ..s
                    },
                    Action::Idle,
                )
            }
        },
        Message::SelectProfile(id) => (StateView { selected_profile: id@, ..s }, Action::Idle),
        Message::ToggleProjectExpand(id) => (
            StateView { expanded_projects: toggle_member(s.expanded_projects, id@), ..s },
            Action::Idle,
        ),
        Message::SelectProject(id) => (
            StateView {
                selected_project: Some(id@),
                active_session: first_session_of(s.projects, id@),
                ..s
            },
            Action::Idle,
        ),
        Message::EnterDrill(id) => (StateView { drill_project: Some(id@), ..s }, Action::Idle),
        Message::ExitDrill => (StateView { drill_project: None, ..s }, Action::Idle),
        Message::DeleteProfile(id) => {
            let profiles = s.profiles.filter(profile_lacks_id(id@));
            (
                StateView {
                    profiles,
                    selected_profile: fallback_profile(profiles, s.selected_profile),
                    ..s
                },
                Action::Idle,
            )
        },
        Message::DeleteProject(id) => {
            let projects = s.projects.filter(project_lacks_id(id@));
            (
                StateView {
                    projects,
                    selected_project: fallback_project(projects, s.selected_project),
                    drill_project: if s.drill_project == Some(id@) {
                        None
                    } else {
                        s.drill_project
                    },
                    ..s
                },
                Action::Idle,
            )
        },
        Message::OpenCreateDialog(k) => (
            StateView { create_dialog: Some(k), create_input: Seq::empty(), ..s },
            Action::Idle,
        ),
        Message::CloseCreateDialog => (
            StateView { create_dialog: None, create_input: Seq::empty(), ..s },
            Action::Idle,
        ),
        Message::CreateInputChanged(t) => (StateView { create_input: t@, ..s }, Action::Idle),
        Message::ConfirmCreate => (
            confirm_create(s),
            if trim(s.create_input).len() == 0 {
                Action::Idle
            } else {
                Action::ScrollAgentsPanelToTop
            },
        ),
        Message::ToggleDir(path) => (
            StateView { expanded_dirs: toggle_member(s.expanded_dirs, path@), ..s },
            Action::Idle,
        ),
        Message::SelectFile(path) => (StateView { selected_file: Some(path@), ..s }, Action::Idle),
        Message::MoveCard(card, target) => (
            StateView { kanban_columns: move_card(s.kanban_columns, card@, target@), ..s },
            Action::Idle,
        ),
        Message::ToggleSetting(key) => (
            StateView {
                settings: if s.settings.dom().contains(key@) {
                    s.settings.insert(key@, !s.settings[key@])
                } else {
                    s.settings
                },
                ..s
            },
            Action::Idle,
        ),
    }
}

} // verus!

verus! {

// ---------------------------------------------------------------------------
// Searches and edits on the state's lists
// ---------------------------------------------------------------------------

pub open spec fn as_index(r: Option<usize>) -> Option<int> {
    match r {
        Some(i) => Some(i as int),
        None => None,
    }
}

/// The entry's key is `key`.
pub open spec fn key_is<T: Keyed>(key: Seq<char>) -> spec_fn(T) -> bool {
    |x: T| x.key_spec() == key
}

/// Index of the first entry whose key is `key`.
fn find_keyed<T: Keyed>(v: &Vec<T>, key: &str) -> (r: Option<usize>)
    ensures
        as_index(r) == first_where(v@, key_is::<T>(key@)),
        r matches Some(i) ==> i < v.len(),
{
    let mut i: usize = 0;
    while i < v.len()
        invariant
            i <= v.len(),
            forall|j: int| 0 <= j < i ==> !key_is::<T>(key@)(#[trigger] v@[j]),
        decreases v.len() - i,
    {
        if crate::collections::str_eq(v[i].key(), key) {
            proof {
                lemma_first_where_is(v@, key_is::<T>(key@), i as int);
            }
            return Some(i);
        }
        i += 1;
    }
    proof {
        lemma_first_where_none(v@, key_is::<T>(key@));
    }
    None
}

/// Index of the first project with id `id`.
fn find_project(projects: &Vec<ProjectNode>, id: &str) -> (r: Option<usize>)
    ensures
        as_index(r) == first_where(projects_view(projects@), project_has_id(id@)),
        r matches Some(i) ==> i < projects.len(),
{
    let r = find_keyed(projects, id);
    proof {
        lemma_first_where_map(projects@, |p: ProjectNode| p@, project_has_id(id@), key_is::<ProjectNode>(id@));
    }
    r
}

/// Index of the first home bucket.
fn find_home(projects: &Vec<ProjectNode>) -> (r: Option<usize>)
    ensures
        as_index(r) == first_where(projects_view(projects@), project_is_home()),
        r matches Some(i) ==> i < projects.len(),
{
    let ghost pv = projects_view(projects@);
    let mut i: usize = 0;
    while i < projects.len()
        invariant
            i <= projects.len(),
            pv == projects_view(projects@),
            forall|j: int| 0 <= j < i ==> !project_is_home()(#[trigger] pv[j]),
        decreases projects.len() - i,
    {
        if projects[i].is_no_project {
            proof {
                lemma_first_where_is(pv, project_is_home(), i as int);
            }
            return Some(i);
        }
        i += 1;
    }
    proof {
        lemma_first_where_none(pv, project_is_home());
    }
    None
}

/// Whether some agent has id `id`.
fn has_profile(profiles: &Vec<AgentProfile>, id: &str) -> (r: bool)
    ensures
        r == any_where(profiles_view(profiles@), profile_has_id(id@)),
{
    let r = find_keyed(profiles, id);
    proof {
        lemma_first_where_map(profiles@, |p: AgentProfile| p@, profile_has_id(id@), key_is::<AgentProfile>(id@));
        lemma_any_where(profiles_view(profiles@), profile_has_id(id@));
    }
    r.is_some()
}

/// The entry's key differs from `key`.
pub open spec fn key_differs<T: Keyed>(key: Seq<char>) -> spec_fn(T) -> bool {
    |x: T| x.key_spec() != key
}

/// Removes every entry whose key is `key`, keeping the order of the others.
fn remove_keyed<T: Keyed>(v: &mut Vec<T>, key: &str)
    ensures
        final(v)@ == old(v)@.filter(key_differs::<T>(key@)),
{
    let ghost ov = v@;
    let ghost p = key_differs::<T>(key@);
    let mut i: usize = 0;
    let ghost mut k: int = 0;
    while i < v.len()
        invariant
            0 <= k <= ov.len(),
            i <= v.len(),
            ov == old(v)@,
            p == key_differs::<T>(key@),
            v@ == ov.take(k).filter(p) + ov.skip(k),
            i == ov.take(k).filter(p).len(),
        decreases v.len() - i,
    {
        let ghost before = v@;
        proof {
            assert(ov.skip(k)[0] == before[i as int]);
            assert(ov.take(k + 1) =~= ov.take(k).push(ov[k]));
            ov.take(k).lemma_filter_push(ov[k], p);
        }
        if crate::collections::str_eq(v[i].key(), key) {
            v.remove(i);
            proof {
                assert(!p(ov[k]));
                assert(v@ =~= before.remove(i as int));
                assert(v@ =~= ov.take(k + 1).filter(p) + ov.skip(k + 1));
                k = k + 1;
            }
        } else {
            i += 1;
            proof {
                assert(p(ov[k]));
                assert(v@ =~= ov.take(k + 1).filter(p) + ov.skip(k + 1));
                k = k + 1;
            }
        }
    }
    proof {
        assert(ov.take(k) =~= ov);
        assert(v@ =~= ov.filter(p));
    }
}

} // verus!

verus! {

/// Index of the first card with id `id` in `cards`.
fn find_card_in(cards: &Vec<KanbanCard>, id: &str) -> (r: Option<usize>)
    ensures
        as_index(r) == first_where(cards_view(cards@), card_has_id(id@)),
        r matches Some(i) ==> i < cards.len(),
{
    let r = find_keyed(cards, id);
    proof {
        lemma_first_where_map(cards@, |c: KanbanCard| c@, card_has_id(id@), key_is::<KanbanCard>(id@));
    }
    r
}

/// Index of the first column with id `id`.
fn find_column(columns: &Vec<KanbanColumn>, id: &str) -> (r: Option<usize>)
    ensures
        as_index(r) == first_where(columns_view(columns@), column_has_id(id@)),
        r matches Some(i) ==> i < columns.len(),
{
    let r = find_keyed(columns, id);
    proof {
        lemma_first_where_map(columns@, |c: KanbanColumn| c@, column_has_id(id@), key_is::<KanbanColumn>(id@));
    }
    r
}

/// The board after taking out the first card `card_id` of the first column holding it.
pub open spec fn take_out_card(cols: Seq<KanbanColumnView>, card_id: Seq<char>) -> Seq<KanbanColumnView> {
    match first_where(cols, column_holds_card(card_id)) {
        None => cols,
        Some(c) => {
            let cards = cols[c].cards;
            let k = first_where(cards, card_has_id(card_id))->0;
            cols.update(c, KanbanColumnView { cards: cards.remove(k), ..cols[c] })
        },
    }
}

/// The card that `take_out_card` takes out.
pub open spec fn card_taken(cols: Seq<KanbanColumnView>, card_id: Seq<char>) -> Option<KanbanCardView> {
    match first_where(cols, column_holds_card(card_id)) {
        None => None,
        Some(c) => {
            let cards = cols[c].cards;
            Some(cards[first_where(cards, card_has_id(card_id))->0])
        },
    }
}

/// Takes out and returns the first card with id `card_id`, searching the
/// columns in order; `None` (and no change) when no column holds it.
pub fn find_card(columns: &mut Vec<KanbanColumn>, card_id: &str) -> (r: Option<KanbanCard>)
    ensures
        columns_view(final(columns)@) == take_out_card(columns_view(old(columns)@), card_id@),
        match r {
            Some(card) => card_taken(columns_view(old(columns)@), card_id@) == Some(card@),
            None => card_taken(columns_view(old(columns)@), card_id@) is None,
        },
{
    let ghost ov = columns_view(columns@);
    let mut c: usize = 0;
    while c < columns.len()
        invariant
            c <= columns.len(),
            ov == columns_view(columns@),
            columns@ == old(columns)@,
            forall|j: int| 0 <= j < c ==> !column_holds_card(card_id@)(#[trigger] ov[j]),
        decreases columns.len() - c,
    {
        match find_card_in(&columns[c].cards, card_id) {
            Some(k) => {
                proof {
                    assert(ov[c as int].cards == cards_view(columns@[c as int].cards@));
                    lemma_first_where(ov[c as int].cards, card_has_id(card_id@));
                    assert(column_holds_card(card_id@)(ov[c as int]));
                    lemma_first_where_is(ov, column_holds_card(card_id@), c as int);
                }
                let mut col = columns.remove(c);
                let card = col.cards.remove(k);
                let ghost col_v = col@;
                columns.insert(c, col);
                proof {
                    assert(col_v.cards =~= ov[c as int].cards.remove(k as int));
                    assert(columns_view(columns@) =~= ov.update(
                        c as int,
                        KanbanColumnView { cards: ov[c as int].cards.remove(k as int), ..ov[c as int] },
                    ));
                }
                return Some(card);
            },
            None => {
                proof {
                    assert(ov[c as int].cards == cards_view(columns@[c as int].cards@));
                    lemma_any_where(ov[c as int].cards, card_has_id(card_id@));
                }
            },
        }
        c += 1;
    }
    proof {
        lemma_first_where_none(ov, column_holds_card(card_id@));
    }
    None
}

/// The status a card takes in the column `target`.
fn status_for(target: &str, current: CardStatus) -> (r: CardStatus)
    ensures
        r == status_for_column(target@, current),
{
    if crate::collections::str_eq(target, "todo") {
        CardStatus::Todo
    } else if crate::collections::str_eq(target, "doing") {
        CardStatus::Doing
    } else if crate::collections::str_eq(target, "review") {
        CardStatus::Review
    } else if crate::collections::str_eq(target, "done") {
        CardStatus::Done
    } else {
        current
    }
}

/// Moves the first card `card_id` to the end of the first column `target`,
/// setting its status from the column id; a card whose target column does not
/// exist is taken out and dropped.
fn move_card_exec(columns: &mut Vec<KanbanColumn>, card_id: &str, target: &str)
    ensures
        columns_view(final(columns)@) == move_card(columns_view(old(columns)@), card_id@, target@),
{
    let ghost ov = columns_view(columns@);
    match find_card(columns, card_id) {
        Some(card) => {
            let mut card = card;
            card.status = status_for(target, card.status);
            match find_column(columns, target) {
                Some(t) => {
                    let mut col = columns.remove(t);
                    let ghost before = col@;
                    let ghost moved = card@;
                    col.cards.push(card);
                    let ghost col_v = col@;
                    columns.insert(t, col);
                    proof {
                        assert(col_v.cards =~= before.cards.push(moved));
                        let removed = take_out_card(ov, card_id@);
                        assert(columns_view(columns@) =~= removed.update(
                            t as int,
                            KanbanColumnView { cards: removed[t as int].cards.push(moved), ..removed[t as int] },
                        ));
                    }
                },
                None => {},
            }
        },
        None => {},
    }
}

} // verus!

verus! {

fn send_pressed(state: &mut State)
    ensures
        final(state)@ == step(old(state)@, Message::SendPressed).0,
{
    let text = trimmed(state.input.as_str());
    if !text.as_str().is_empty() {
        let ghost t = text@;
        let user = ChatMessage { role: owned("user"), content: text.clone() };
        let head = concat("（演示）已收到你的消息：「", text.as_str());
        let reply = concat(head.as_str(), "」。这是一段模拟回复，后端接入后将由真实 Agent 生成。");
        let assistant = ChatMessage { role: owned("assistant"), content: reply };
        let ghost ov = messages_view(state.messages@);
        state.messages.push(user);
        state.messages.push(assistant);
        state.input = String::new();
        proof {
            assert(messages_view(state.messages@) =~= ov.push(
                ChatMessageView { role: "user"@, content: t },
            ).push(ChatMessageView { role: "assistant"@, content: echo_reply(t) }));
        }
    }
}

fn select_project(state: &mut State, id: String)
    ensures
        final(state)@ == step(old(state)@, Message::SelectProject(id)).0,
{
    let ghost ov = projects_view(state.projects@);
    let session = match find_project(&state.projects, id.as_str()) {
        Some(i) => {
            if state.projects[i].preview_sessions.len() > 0 {
                proof {
                    assert(ov[i as int].preview_sessions[0] == state.projects[i as int].preview_sessions@[0]@);
                }
                Some(state.projects[i].preview_sessions[0].id.clone())
            } else {
                None
            }
        },
        None => None,
    };
    state.selected_project = Some(id);
    state.active_session = session;
}

fn delete_profile(state: &mut State, id: String)
    ensures
        final(state)@ == step(old(state)@, Message::DeleteProfile(id)).0,
{
    let ghost old_profiles = state.profiles@;
    remove_keyed(&mut state.profiles, id.as_str());
    proof {
        vstd::seq_lib::lemma_filter_view_commute(
            old_profiles,
            key_differs::<AgentProfile>(id@),
            profile_lacks_id(id@),
        );
        assert(profiles_view(state.profiles@) =~= profiles_view(old_profiles).filter(profile_lacks_id(id@)));
    }
    if !has_profile(&state.profiles, state.selected_profile.as_str()) {
        if has_profile(&state.profiles, "default") {
            state.selected_profile = owned("default");
        } else if state.profiles.len() > 0 {
            state.selected_profile = state.profiles[0].id.clone();
        } else {
            state.selected_profile = String::new();
        }
    }
}

fn delete_project(state: &mut State, id: String)
    ensures
        final(state)@ == step(old(state)@, Message::DeleteProject(id)).0,
{
    let ghost old_projects = state.projects@;
    remove_keyed(&mut state.projects, id.as_str());
    proof {
        vstd::seq_lib::lemma_filter_view_commute(
            old_projects,
            key_differs::<ProjectNode>(id@),
            project_lacks_id(id@),
        );
        assert(projects_view(state.projects@) =~= projects_view(old_projects).filter(project_lacks_id(id@)));
    }
    let keep = match &state.selected_project {
        Some(sel) => find_project(&state.projects, sel.as_str()).is_some(),
        None => false,
    };
    proof {
        if let Some(sel) = &state.selected_project {
            lemma_any_where(projects_view(state.projects@), project_has_id(sel@));
        }
    }
    if !keep {
        state.selected_project = if state.projects.len() > 0 {
            Some(state.projects[0].id.clone())
        } else {
            None
        };
    }
    let drilled = match &state.drill_project {
        Some(d) => crate::collections::str_eq(d.as_str(), id.as_str()),
        None => false,
    };
    if drilled {
        state.drill_project = None;
    }
}

fn confirm_create_exec(state: &mut State) -> (created: bool)
    ensures
        final(state)@ == confirm_create(old(state)@),
        created == (trim(old(state)@.create_input).len() > 0),
{
    let name = trimmed(state.create_input.as_str());
    let created = !name.as_str().is_empty();
    if created {
        match state.create_dialog {
            Some(CreateDialog::Agent) => {
                let ghost ov = profiles_view(state.profiles@);
                let agent = AgentProfile {
                    id: name.clone(),
                    display_name: name.clone(),
                    color: None,
                    has_avatar: false,
                    avatar_key: None,
                    is_default: false,
                    model: None,
                    provider: None,
                    skill_count: 0,
                };
                state.profiles.insert(0, agent);
                state.selected_profile = name;
                proof {
                    assert(profiles_view(state.profiles@) =~= seq![new_agent(trim(old(state)@.create_input))] + ov);
                }
            },
            Some(CreateDialog::Project) => {
                let ghost ov = projects_view(state.projects@);
                let proj = ProjectNode {
                    id: name.clone(),
                    label: name.clone(),
                    path: Some(concat("/projects/", name.as_str())),
                    color: None,
                    icon: None,
                    is_auto: false,
                    is_no_project: false,
                    session_count: 0,
                    last_active: owned("刚刚"),
                    preview_sessions: Vec::new(),
                    repos: Vec::new(),
                };
                proof {
                    assert(proj@.preview_sessions =~= Seq::<SessionPreviewView>::empty());
                    assert(proj@.repos =~= Seq::<RepoNodeView>::empty());
                    assert(proj@ == new_project(name@));
                }
                let idx = match find_home(&state.projects) {
                    Some(i) => i + 1,
                    None => 0,
                };
                state.projects.insert(idx, proj);
                state.selected_project = Some(name.clone());
                state.expanded_projects.insert(name);
                proof {
                    assert(projects_view(state.projects@) =~= ov.insert(
                        new_project_index(ov),
                        new_project(trim(old(state)@.create_input)),
                    ));
                }
            },
            None => {},
        }
    }
    state.create_dialog = None;
    state.create_input = String::new();
    created
}

/// Applies `message` to `state` and returns the effect that the host must
/// perform.
pub fn update(state: &mut State, message: Message) -> (action: Action)
    ensures
        (final(state)@, action) == step(old(state)@, message),
{
    let ghost m = message;
    match message {
        Message::ToggleLeftPanel(panel) => {
            state.active_panel = match state.active_panel {
                Some(p) if p == panel => None,
                _ => Some(panel),
            };
        },
        Message::ToggleFiles => {
            if state.right_open && state.right_tab == RightTab::Files {
                state.right_open = false;
            } else {
                state.right_open = true;
                state.right_tab = RightTab::Files;
            }
        },
        Message::OpenRightTab(tab) => {
            state.right_open = true;
            state.right_tab = tab;
        },
        Message::CloseRight => {
            state.right_open = false;
        },
        Message::OpenOverlay(o) => {
            state.overlay = Some(o);
        },
        Message::CloseOverlay => {
            state.overlay = None;
        },
        Message::Dismiss => {},
        Message::InputChanged(s) => {
            state.input = s;
        },
        Message::SendPressed => {
            send_pressed(state);
        },
        Message::SelectProfile(id) => {
            state.selected_profile = id;
        },
        Message::ToggleProjectExpand(id) => {
            state.expanded_projects.toggle(id);
        },
        Message::SelectProject(id) => {
            select_project(state, id);
        },
        Message::EnterDrill(id) => {
            state.drill_project = Some(id);
        },
        Message::ExitDrill => {
            state.drill_project = None;
        },
        Message::DeleteProfile(id) => {
            delete_profile(state, id);
        },
        Message::DeleteProject(id) => {
            delete_project(state, id);
        },
        Message::OpenCreateDialog(kind) => {
            state.create_dialog = Some(kind);
            state.create_input = String::new();
        },
        Message::CloseCreateDialog => {
            state.create_dialog = None;
            state.create_input = String::new();
        },
        Message::CreateInputChanged(s) => {
            state.create_input = s;
        },
        Message::ConfirmCreate => {
            if confirm_create_exec(state) {
                return Action::ScrollAgentsPanelToTop;
            }
        },
        Message::ToggleDir(path) => {
            state.expanded_dirs.toggle(path);
        },
        Message::SelectFile(path) => {
            state.selected_file = Some(path);
        },
        Message::MoveCard(card_id, target) => {
            move_card_exec(&mut state.kanban_columns, card_id.as_str(), target.as_str());
        },
        Message::ToggleSetting(key) => {
            state.settings.toggle(key.as_str());
        },
    }
    Action::Idle
}

} // verus!
