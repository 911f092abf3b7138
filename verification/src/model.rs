//! The data model of the workbench: navigation enums, chat messages, agent
//! profiles, the project tree, the file tree and the kanban board, with a
//! mathematical view of each.
use vstd::prelude::*;

verus! {

/// Left-panel section (clicking its icon opens it beside the chat; clicking again closes it).
#[derive(Debug, Clone, Copy, PartialEq, Eq, Structural)]
pub enum LeftPanel {
    Agents,
    Kanban,
    Gateway,
    Channels,
    Cron,
    Tools,
    Learning,
    Debug,
    Usage,
}

/// Tab of the right drawer.
#[derive(Debug, Clone, Copy, PartialEq, Eq, Structural)]
pub enum RightTab {
    Files,
    Terminal,
    Preview,
    Artifacts,
}

/// Modal overlay.
#[derive(Debug, Clone, Copy, PartialEq, Eq, Structural)]
pub enum Overlay {
    Settings,
    Theme,
    About,
    Model,
}

/// Kind of the "create" dialog.
#[derive(Debug, Clone, Copy, PartialEq, Eq, Structural)]
pub enum CreateDialog {
    Agent,
    Project,
}

/// Status of a kanban card.
#[derive(Debug, Clone, Copy, PartialEq, Eq, Structural)]
pub enum CardStatus {
    Todo,
    Doing,
    Review,
    Done,
}

impl CardStatus {
    /// The label shown for the status.
    pub open spec fn label_spec(self) -> Seq<char> {
        match self {
            CardStatus::Todo => "待办"@,
            CardStatus::Doing => "进行中"@,
            CardStatus::Review => "评审"@,
            CardStatus::Done => "完成"@,
        }
    }

    pub fn label(&self) -> (r: &'static str)
        ensures
            r@ == self.label_spec(),
    {
        match self {
            CardStatus::Todo => "待办",
            CardStatus::Doing => "进行中",
            CardStatus::Review => "评审",
            CardStatus::Done => "完成",
        }
    }
}

/// View of an optional string.
pub open spec fn opt_view(o: Option<String>) -> Option<Seq<char>> {
    match o {
        Some(s) => Some(s@),
        None => None,
    }
}

/// A chat message; `role` is "user" or "assistant".
#[derive(Debug, Clone)]
pub struct ChatMessage {
    pub role: String,
    pub content: String,
}

pub struct ChatMessageView {
    pub role: Seq<char>,
    pub content: Seq<char>,
}

impl View for ChatMessage {
    type V = ChatMessageView;

    open spec fn view(&self) -> ChatMessageView {
        ChatMessageView { role: self.role@, content: self.content@ }
    }
}

/// An agent identity.
#[derive(Debug, Clone)]
pub struct AgentProfile {
    pub id: String,
    pub display_name: String,
    /// Theme colour `#RRGGBB`.
    pub color: Option<String>,
    /// Whether an avatar image was uploaded.
    pub has_avatar: bool,
    /// Key of a preset avatar.
    pub avatar_key: Option<String>,
    pub is_default: bool,
    pub model: Option<String>,
    pub provider: Option<String>,
    pub skill_count: usize,
}

pub struct AgentProfileView {
    pub id: Seq<char>,
    pub display_name: Seq<char>,
    pub color: Option<Seq<char>>,
    pub has_avatar: bool,
    pub avatar_key: Option<Seq<char>>,
    pub is_default: bool,
    pub model: Option<Seq<char>>,
    pub provider: Option<Seq<char>>,
    pub skill_count: nat,
}

impl View for AgentProfile {
    type V = AgentProfileView;

    open spec fn view(&self) -> AgentProfileView {
        AgentProfileView {
            id: self.id@,
            display_name: self.display_name@,
            color: opt_view(self.color),
            has_avatar: self.has_avatar,
            avatar_key: opt_view(self.avatar_key),
            is_default: self.is_default,
            model: opt_view(self.model),
            provider: opt_view(self.provider),
            skill_count: self.skill_count as nat,
        }
    }
}

/// A session shown in a project preview; `last_active` is already formatted.
#[derive(Debug, Clone)]
pub struct SessionPreview {
    pub id: String,
    pub title: String,
    pub last_active: String,
}

pub struct SessionPreviewView {
    pub id: Seq<char>,
    pub title: Seq<char>,
    pub last_active: Seq<char>,
}

impl View for SessionPreview {
    type V = SessionPreviewView;

    open spec fn view(&self) -> SessionPreviewView {
        SessionPreviewView { id: self.id@, title: self.title@, last_active: self.last_active@ }
    }
}

pub open spec fn sessions_view(s: Seq<SessionPreview>) -> Seq<SessionPreviewView> {
    s.map_values(|x: SessionPreview| x@)
}

/// A lane (branch) of a repository in the drill-down view.
#[derive(Debug, Clone)]
pub struct LaneGroup {
    pub id: String,
    pub label: String,
    pub session_count: usize,
    pub sessions: Vec<SessionPreview>,
}

pub struct LaneGroupView {
    pub id: Seq<char>,
    pub label: Seq<char>,
    pub session_count: nat,
    pub sessions: Seq<SessionPreviewView>,
}

impl View for LaneGroup {
    type V = LaneGroupView;

    open spec fn view(&self) -> LaneGroupView {
        LaneGroupView {
            id: self.id@,
            label: self.label@,
            session_count: self.session_count as nat,
            sessions: sessions_view(self.sessions@),
        }
    }
}

/// A repository of a project in the drill-down view.
#[derive(Debug, Clone)]
pub struct RepoNode {
    pub id: String,
    pub label: String,
    pub session_count: usize,
    pub lanes: Vec<LaneGroup>,
}

pub struct RepoNodeView {
    pub id: Seq<char>,
    pub label: Seq<char>,
    pub session_count: nat,
    pub lanes: Seq<LaneGroupView>,
}

impl View for RepoNode {
    type V = RepoNodeView;

    open spec fn view(&self) -> RepoNodeView {
        RepoNodeView {
            id: self.id@,
            label: self.label@,
            session_count: self.session_count as nat,
            lanes: self.lanes@.map_values(|l: LaneGroup| l@),
        }
    }
}

/// A project; the "home" bucket (`is_no_project`) gathers sessions of no project.
#[derive(Debug, Clone)]
pub struct ProjectNode {
    pub id: String,
    pub label: String,
    pub path: Option<String>,
    pub color: Option<String>,
    pub icon: Option<String>,
    pub is_auto: bool,
    pub is_no_project: bool,
    pub session_count: usize,
    pub last_active: String,
    pub preview_sessions: Vec<SessionPreview>,
    pub repos: Vec<RepoNode>,
}

pub struct ProjectNodeView {
    pub id: Seq<char>,
    pub label: Seq<char>,
    pub path: Option<Seq<char>>,
    pub color: Option<Seq<char>>,
    pub icon: Option<Seq<char>>,
    pub is_auto: bool,
    pub is_no_project: bool,
    pub session_count: nat,
    pub last_active: Seq<char>,
    pub preview_sessions: Seq<SessionPreviewView>,
    pub repos: Seq<RepoNodeView>,
}

impl View for ProjectNode {
    type V = ProjectNodeView;

    open spec fn view(&self) -> ProjectNodeView {
        ProjectNodeView {
            id: self.id@,
            label: self.label@,
            path: opt_view(self.path),
            color: opt_view(self.color),
            icon: opt_view(self.icon),
            is_auto: self.is_auto,
            is_no_project: self.is_no_project,
            session_count: self.session_count as nat,
            last_active: self.last_active@,
            preview_sessions: sessions_view(self.preview_sessions@),
            repos: self.repos@.map_values(|r: RepoNode| r@),
        }
    }
}

/// An entry of a list that is found and removed by its id.
pub trait Keyed {
    spec fn key_spec(&self) -> Seq<char>;

    fn key(&self) -> (r: &str)
        ensures
            r@ == self.key_spec(),
    ;
}

impl Keyed for AgentProfile {
    open spec fn key_spec(&self) -> Seq<char> {
        self.id@
    }

    fn key(&self) -> (r: &str) {
        self.id.as_str()
    }
}

impl Keyed for KanbanCard {
    open spec fn key_spec(&self) -> Seq<char> {
        self.id@
    }

    fn key(&self) -> (r: &str) {
        self.id.as_str()
    }
}

impl Keyed for KanbanColumn {
    open spec fn key_spec(&self) -> Seq<char> {
        self.id@
    }

    fn key(&self) -> (r: &str) {
        self.id.as_str()
    }
}

impl Keyed for ProjectNode {
    open spec fn key_spec(&self) -> Seq<char> {
        self.id@
    }

    fn key(&self) -> (r: &str) {
        self.id.as_str()
    }
}

/// A file or directory of the file browser.
#[derive(Debug)]
pub struct FsNode {
    pub name: String,
    pub path: String,
    pub is_dir: bool,
    pub children: Option<Vec<FsNode>>,
}

pub struct FsNodeView {
    pub name: Seq<char>,
    pub path: Seq<char>,
    pub is_dir: bool,
    pub children: Option<Seq<FsNodeView>>,
}

pub open spec fn fs_view(n: FsNode) -> FsNodeView
    decreases n,
{
    FsNodeView {
        name: n.name@,
        path: n.path@,
        is_dir: n.is_dir,
        children: match n.children {
            Some(v) => Some(fs_seq_view(v@)),
            None => None,
        },
    }
}

pub open spec fn fs_seq_view(s: Seq<FsNode>) -> Seq<FsNodeView>
    decreases s,
{
    if s.len() == 0 {
        Seq::empty()
    } else {
        seq![fs_view(s[0])] + fs_seq_view(s.drop_first())
    }
}

impl View for FsNode {
    type V = FsNodeView;

    open spec fn view(&self) -> FsNodeView {
        fs_view(*self)
    }
}

/// The view of a list of nodes is the list of their views.
pub proof fn lemma_fs_seq_view_index(s: Seq<FsNode>, i: int)
    requires
        0 <= i < s.len(),
    ensures
        fs_seq_view(s).len() == s.len(),
        fs_seq_view(s)[i] == fs_view(s[i]),
        fs_seq_view(s).skip(i)[0] == fs_view(s[i]),
    decreases s.len(),
{
    lemma_fs_seq_view_len(s);
    if i > 0 {
        lemma_fs_seq_view_index(s.drop_first(), i - 1);
        assert(s.drop_first()[i - 1] == s[i]);
    }
}

pub proof fn lemma_fs_seq_view_len(s: Seq<FsNode>)
    ensures
        fs_seq_view(s).len() == s.len(),
    decreases s.len(),
{
    if s.len() > 0 {
        lemma_fs_seq_view_len(s.drop_first());
    }
}

impl Clone for FsNode {
    /// A deep copy of the node and its subtree.
    fn clone(&self) -> (r: FsNode)
        ensures
            r@ == self@,
    {
        let children = match &self.children {
            Some(kids) => Some(clone_fs_nodes(kids)),
            None => None,
        };
        FsNode { name: self.name.clone(), path: self.path.clone(), is_dir: self.is_dir, children }
    }
}

/// A deep copy of a list of nodes.
pub fn clone_fs_nodes(nodes: &Vec<FsNode>) -> (r: Vec<FsNode>)
    ensures
        fs_seq_view(r@) == fs_seq_view(nodes@),
    decreases fs_seq_view(nodes@),
{
    let ghost nv = fs_seq_view(nodes@);
    let mut out: Vec<FsNode> = Vec::new();
    let mut i: usize = 0;
    proof {
        lemma_fs_seq_view_len(nodes@);
    }
    while i < nodes.len()
        invariant
            i <= nodes.len(),
            nv == fs_seq_view(nodes@),
            nv.len() == nodes@.len(),
            out@.len() == i,
            forall|j: int| 0 <= j < i ==> fs_view(#[trigger] out@[j]) == nv[j],
        decreases nodes.len() - i,
    {
        let n = &nodes[i];
        proof {
            lemma_fs_seq_view_index(nodes@, i as int);
        }
        let children = match &n.children {
            Some(kids) => {
                proof {
                    assert(nv[i as int].children == Some(fs_seq_view(kids@)));
                    assert(decreases_to!(nv => nv[i as int]));
                    assert(decreases_to!(nv[i as int] => nv[i as int].children));
                    assert(decreases_to!(nv[i as int].children => nv[i as int].children->0));
                }
                Some(clone_fs_nodes(kids))
            },
            None => None,
        };
        let copy = FsNode { name: n.name.clone(), path: n.path.clone(), is_dir: n.is_dir, children };
        out.push(copy);
        i += 1;
    }
    proof {
        lemma_fs_seq_view_len(out@);
        assert forall|j: int| 0 <= j < out@.len() implies fs_seq_view(out@)[j] == nv[j] by {
            lemma_fs_seq_view_index(out@, j);
        }
        assert(fs_seq_view(out@) =~= nv);
    }
    out
}

/// A kanban card.
#[derive(Debug, Clone)]
pub struct KanbanCard {
    pub id: String,
    pub title: String,
    pub status: CardStatus,
    pub model: String,
    pub agent: String,
}

pub struct KanbanCardView {
    pub id: Seq<char>,
    pub title: Seq<char>,
    pub status: CardStatus,
    pub model: Seq<char>,
    pub agent: Seq<char>,
}

impl View for KanbanCard {
    type V = KanbanCardView;

    open spec fn view(&self) -> KanbanCardView {
        KanbanCardView {
            id: self.id@,
            title: self.title@,
            status: self.status,
            model: self.model@,
            agent: self.agent@,
        }
    }
}

pub open spec fn cards_view(s: Seq<KanbanCard>) -> Seq<KanbanCardView> {
    s.map_values(|c: KanbanCard| c@)
}

/// A kanban column.
#[derive(Debug, Clone)]
pub struct KanbanColumn {
    pub id: String,
    pub title: String,
    pub cards: Vec<KanbanCard>,
}

pub struct KanbanColumnView {
    pub id: Seq<char>,
    pub title: Seq<char>,
    pub cards: Seq<KanbanCardView>,
}

impl View for KanbanColumn {
    type V = KanbanColumnView;

    open spec fn view(&self) -> KanbanColumnView {
        KanbanColumnView { id: self.id@, title: self.title@, cards: cards_view(self.cards@) }
    }
}

} // verus!
