//! The mock data the workbench starts with, and the initial state.
use vstd::prelude::*;
use crate::collections::{Settings, StrSet};
use crate::model::{
    AgentProfile, AgentProfileView, CardStatus, ChatMessage, ChatMessageView, FsNode, FsNodeView,
    KanbanCard, KanbanCardView, KanbanColumn, KanbanColumnView, LaneGroup, LaneGroupView,
    LeftPanel, ProjectNode, ProjectNodeView, RepoNode, RepoNodeView, RightTab, SessionPreview,
    SessionPreviewView, cards_view, fs_seq_view, fs_view, sessions_view,
};
use crate::state::{
    Action, State, StateView, columns_view, messages_view, profiles_view, projects_view,
};
use crate::text::owned;

verus! {

pub open spec fn chat(role: Seq<char>, content: Seq<char>) -> ChatMessageView {
    ChatMessageView { role, content }
}

/// The conversation shown at start.
pub open spec fn initial_messages_spec() -> Seq<ChatMessageView> {
    seq![
        chat("user"@, "你好，请介绍一下你自己"@),
        chat("assistant"@, "你好！我是 ELEVE Agent，一个基于 Rust 构建的 AI 智能体。我可以帮你写代码、分析数据、自动化任务等。有什么我可以帮你的吗？"@),
        chat("user"@, "帮我把 eleve-iced 的布局按 Tauri 的方式重构一下"@),
        chat("assistant"@, "好的。Tauri 的设计是：主聊天区永远常驻，左侧图标栏的点击分为三类——打开左侧面板、切换右侧抽屉、弹出模态窗口。我现在就按这个模型来重构 iced 前端。"@),
    ]
}

fn message(role: &str, content: &str) -> (m: ChatMessage)
    ensures
        m@ == chat(role@, content@),
{
    ChatMessage { role: owned(role), content: owned(content) }
}

/// The conversation shown at start.
pub fn initial_messages() -> (r: Vec<ChatMessage>)
    ensures
        messages_view(r@) == initial_messages_spec(),
{
    let r = vec![
        message("user", "你好，请介绍一下你自己"),
        message("assistant", "你好！我是 ELEVE Agent，一个基于 Rust 构建的 AI 智能体。我可以帮你写代码、分析数据、自动化任务等。有什么我可以帮你的吗？"),
        message("user", "帮我把 eleve-iced 的布局按 Tauri 的方式重构一下"),
        message("assistant", "好的。Tauri 的设计是：主聊天区永远常驻，左侧图标栏的点击分为三类——打开左侧面板、切换右侧抽屉、弹出模态窗口。我现在就按这个模型来重构 iced 前端。"),
    ];
    proof {
        assert(messages_view(r@) =~= initial_messages_spec());
    }
    r
}

pub open spec fn agent(
    id: Seq<char>,
    name: Seq<char>,
    color: Option<Seq<char>>,
    is_default: bool,
    model: Option<Seq<char>>,
    provider: Option<Seq<char>>,
    skills: nat,
) -> AgentProfileView {
    AgentProfileView {
        id,
        display_name: name,
        color,
        has_avatar: false,
        avatar_key: None,
        is_default,
        model,
        provider,
        skill_count: skills,
    }
}

/// The agents shown at start.
pub open spec fn initial_profiles_spec() -> Seq<AgentProfileView> {
    seq![
        agent("default"@, "默认 Agent"@, None, true, Some("qwen3.7-plus"@), Some("siliconflow"@), 6),
        agent("coder"@, "代码助手"@, Some("#3B82F6"@), false, Some("deepseek-coder"@), Some("deepseek"@), 9),
        agent("analyst"@, "数据分析师"@, Some("#10B981"@), false, Some("qwen3.7-plus"@), Some("siliconflow"@), 4),
        agent("writer"@, "文档写手"@, Some("#F59E0B"@), false, None, None, 3),
        agent("ops"@, "运维助手"@, Some("#EF4444"@), false, Some("qwen3.7-plus"@), Some("siliconflow"@), 7),
    ]
}

fn opt(s: Option<&str>) -> (r: Option<String>)
    ensures
        crate::model::opt_view(r) == (match s {
            Some(t) => Some(t@),
            None => None::<Seq<char>>,
        }),
{
    match s {
        Some(t) => Some(owned(t)),
        None => None,
    }
}

fn make_agent(
    id: &str,
    name: &str,
    color: Option<&str>,
    is_default: bool,
    model: Option<&str>,
    provider: Option<&str>,
    skills: usize,
) -> (p: AgentProfile)
    ensures
        p@ == agent(
            id@,
            name@,
            match color { Some(t) => Some(t@), None => None },
            is_default,
            match model { Some(t) => Some(t@), None => None },
            match provider { Some(t) => Some(t@), None => None },
            skills as nat,
        ),
{
    AgentProfile {
        id: owned(id),
        display_name: owned(name),
        color: opt(color),
        has_avatar: false,
        avatar_key: None,
        is_default,
        model: opt(model),
        provider: opt(provider),
        skill_count: skills,
    }
}

/// The agents shown at start.
pub fn initial_profiles() -> (r: Vec<AgentProfile>)
    ensures
        profiles_view(r@) == initial_profiles_spec(),
{
    let r = vec![
        make_agent("default", "默认 Agent", None, true, Some("qwen3.7-plus"), Some("siliconflow"), 6),
        make_agent("coder", "代码助手", Some("#3B82F6"), false, Some("deepseek-coder"), Some("deepseek"), 9),
        make_agent("analyst", "数据分析师", Some("#10B981"), false, Some("qwen3.7-plus"), Some("siliconflow"), 4),
        make_agent("writer", "文档写手", Some("#F59E0B"), false, None, None, 3),
        make_agent("ops", "运维助手", Some("#EF4444"), false, Some("qwen3.7-plus"), Some("siliconflow"), 7),
    ];
    proof {
        assert(profiles_view(r@) =~= initial_profiles_spec());
    }
    r
}

pub open spec fn sess(id: Seq<char>, title: Seq<char>, last: Seq<char>) -> SessionPreviewView {
    SessionPreviewView { id, title, last_active: last }
}

fn session(id: &str, title: &str, last: &str) -> (s: SessionPreview)
    ensures
        s@ == sess(id@, title@, last@),
{
    SessionPreview { id: owned(id), title: owned(title), last_active: owned(last) }
}

pub open spec fn home_sessions_spec() -> Seq<SessionPreviewView> {
    seq![
        sess("s-h1"@, "未归类的临时会话"@, "刚刚"@),
        sess("s-h2"@, "快速问答：Rust 生命周期"@, "3m"@),
        sess("s-h3"@, "对比 iced 与 egui"@, "1h"@),
    ]
}

pub open spec fn core_sessions_spec() -> Seq<SessionPreviewView> {
    seq![
        sess("s-c1"@, "重构布局为 1+3 卡片"@, "刚刚"@),
        sess("s-c2"@, "对齐 Tauri 弹窗逻辑"@, "12m"@),
        sess("s-c3"@, "修复右侧抽屉标题栏"@, "2h"@),
    ]
}

pub open spec fn app_sessions_spec() -> Seq<SessionPreviewView> {
    seq![
        sess("s-a1"@, "接入 session_service"@, "5m"@),
        sess("s-a2"@, "profile_service 单元测试"@, "8/16"@),
    ]
}

fn home_sessions() -> (r: Vec<SessionPreview>)
    ensures
        sessions_view(r@) == home_sessions_spec(),
{
    let r = vec![
        session("s-h1", "未归类的临时会话", "刚刚"),
        session("s-h2", "快速问答：Rust 生命周期", "3m"),
        session("s-h3", "对比 iced 与 egui", "1h"),
    ];
    proof {
        assert(sessions_view(r@) =~= home_sessions_spec());
    }
    r
}

fn core_sessions() -> (r: Vec<SessionPreview>)
    ensures
        sessions_view(r@) == core_sessions_spec(),
{
    let r = vec![
        session("s-c1", "重构布局为 1+3 卡片", "刚刚"),
        session("s-c2", "对齐 Tauri 弹窗逻辑", "12m"),
        session("s-c3", "修复右侧抽屉标题栏", "2h"),
    ];
    proof {
        assert(sessions_view(r@) =~= core_sessions_spec());
    }
    r
}

fn app_sessions() -> (r: Vec<SessionPreview>)
    ensures
        sessions_view(r@) == app_sessions_spec(),
{
    let r = vec![
        session("s-a1", "接入 session_service", "5m"),
        session("s-a2", "profile_service 单元测试", "8/16"),
    ];
    proof {
        assert(sessions_view(r@) =~= app_sessions_spec());
    }
    r
}

pub open spec fn lane(id: Seq<char>, label: Seq<char>, count: nat, sessions: Seq<SessionPreviewView>) -> LaneGroupView {
    LaneGroupView { id, label, session_count: count, sessions }
}

pub open spec fn repo(id: Seq<char>, label: Seq<char>, count: nat, lanes: Seq<LaneGroupView>) -> RepoNodeView {
    RepoNodeView { id, label, session_count: count, lanes }
}

pub open spec fn project(
    id: Seq<char>,
    label: Seq<char>,
    path: Seq<char>,
    color: Option<Seq<char>>,
    is_auto: bool,
    is_home: bool,
    count: nat,
    last: Seq<char>,
    preview: Seq<SessionPreviewView>,
    repos: Seq<RepoNodeView>,
) -> ProjectNodeView {
    ProjectNodeView {
        id,
        label,
        path: Some(path),
        color,
        icon: None,
        is_auto,
        is_no_project: is_home,
        session_count: count,
        last_active: last,
        preview_sessions: preview,
        repos,
    }
}

/// The projects shown at start: the home bucket, two explicit projects and
/// one auto-discovered project.
pub open spec fn initial_projects_spec() -> Seq<ProjectNodeView> {
    seq![
        project("__no_project__"@, "主目录"@, "/workspace"@, None, false, true, 3, Seq::empty(),
            home_sessions_spec(), Seq::empty()),
        project("eleve-core"@, "eleve-core"@, "/projects/eleve-core"@, Some("#3B82F6"@), false, false, 3, "2h"@,
            core_sessions_spec(),
            seq![repo("eleve-core@main"@, "eleve-core @ main"@, 3, seq![
                lane("lane-main"@, "main"@, 2, core_sessions_spec()),
                lane("lane-feat"@, "feat/tauri-layout"@, 1, seq![sess("s-c4"@, "Tauri 式布局分支"@, "1h"@)]),
            ])]),
        project("eleve-app"@, "eleve-app"@, "/projects/eleve-app"@, Some("#10B981"@), false, false, 2, "8/16"@,
            app_sessions_spec(),
            seq![repo("eleve-app@main"@, "eleve-app @ main"@, 2, seq![
                lane("lane-app-main"@, "main"@, 2, app_sessions_spec()),
            ])]),
        project("eleve-gateway"@, "eleve-gateway"@, "/projects/eleve-gateway"@, None, true, false, 0, "—"@,
            Seq::empty(), Seq::empty()),
    ]
}

fn clone_sessions(v: &Vec<SessionPreview>) -> (r: Vec<SessionPreview>)
    ensures
        sessions_view(r@) == sessions_view(v@),
{
    let mut r: Vec<SessionPreview> = Vec::new();
    let mut i: usize = 0;
    while i < v.len()
        invariant
            i <= v.len(),
            sessions_view(r@) == sessions_view(v@).take(i as int),
        decreases v.len() - i,
    {
        let s = SessionPreview {
            id: v[i].id.clone(),
            title: v[i].title.clone(),
            last_active: v[i].last_active.clone(),
        };
        let ghost prev = r@;
        proof {
            assert(s@ == sessions_view(v@)[i as int]);
        }
        r.push(s);
        i += 1;
        proof {
            assert(r@ == prev.push(s));
            assert(sessions_view(r@) =~= sessions_view(prev).push(s@));
            assert(sessions_view(v@).take(i as int) =~= sessions_view(v@).take(i - 1).push(
                sessions_view(v@)[i - 1],
            ));
        }
    }
    proof {
        assert(sessions_view(v@).take(i as int) =~= sessions_view(v@));
    }
    r
}

/// The projects shown at start.
pub fn initial_projects() -> (r: Vec<ProjectNode>)
    ensures
        projects_view(r@) == initial_projects_spec(),
{
    let home = home_sessions();
    let core = core_sessions();
    let app = app_sessions();
    let home_count = home.len();
    let core_count = core.len();
    let app_count = app.len();

    let feat = vec![session("s-c4", "Tauri 式布局分支", "1h")];
    proof {
        assert(sessions_view(feat@) =~= seq![sess("s-c4"@, "Tauri 式布局分支"@, "1h"@)]);
    }
    let core_lanes = vec![
        LaneGroup { id: owned("lane-main"), label: owned("main"), session_count: 2, sessions: clone_sessions(&core) },
        LaneGroup { id: owned("lane-feat"), label: owned("feat/tauri-layout"), session_count: 1, sessions: feat },
    ];
    let core_repos = vec![
        RepoNode { id: owned("eleve-core@main"), label: owned("eleve-core @ main"), session_count: 3, lanes: core_lanes },
    ];
    let app_lanes = vec![
        LaneGroup { id: owned("lane-app-main"), label: owned("main"), session_count: 2, sessions: clone_sessions(&app) },
    ];
    let app_repos = vec![
        RepoNode { id: owned("eleve-app@main"), label: owned("eleve-app @ main"), session_count: 2, lanes: app_lanes },
    ];
    let p0 = ProjectNode {
        id: owned("__no_project__"),
        label: owned("主目录"),
        path: Some(owned("/workspace")),
        color: None,
        icon: None,
        is_auto: false,
        is_no_project: true,
        session_count: home_count,
        last_active: String::new(),
        preview_sessions: home,
        repos: Vec::new(),
    };
    let p1 = ProjectNode {
        id: owned("eleve-core"),
        label: owned("eleve-core"),
        path: Some(owned("/projects/eleve-core")),
        color: Some(owned("#3B82F6")),
        icon: None,
        is_auto: false,
        is_no_project: false,
        session_count: core_count,
        last_active: owned("2h"),
        preview_sessions: clone_sessions(&core),
        repos: core_repos,
    };
    let p2 = ProjectNode {
        id: owned("eleve-app"),
        label: owned("eleve-app"),
        path: Some(owned("/projects/eleve-app")),
        color: Some(owned("#10B981")),
        icon: None,
        is_auto: false,
        is_no_project: false,
        session_count: app_count,
        last_active: owned("8/16"),
        preview_sessions: clone_sessions(&app),
        repos: app_repos,
    };
    let p3 = ProjectNode {
        id: owned("eleve-gateway"),
        label: owned("eleve-gateway"),
        path: Some(owned("/projects/eleve-gateway")),
        color: None,
        icon: None,
        is_auto: true,
        is_no_project: false,
        session_count: 0,
        last_active: owned("—"),
        preview_sessions: Vec::new(),
        repos: Vec::new(),
    };
    proof {
        assert(home@.len() == 3 && core@.len() == 3 && app@.len() == 2) by {
            assert(sessions_view(home@).len() == 3);
            assert(sessions_view(core@).len() == 3);
            assert(sessions_view(app@).len() == 2);
        }
        assert(p0@.last_active =~= Seq::<char>::empty());
        assert(p0@.repos =~= Seq::<RepoNodeView>::empty());
        let cl = seq![
            lane("lane-main"@, "main"@, 2, core_sessions_spec()),
            lane("lane-feat"@, "feat/tauri-layout"@, 1, seq![sess("s-c4"@, "Tauri 式布局分支"@, "1h"@)]),
        ];
        assert(core_lanes@.map_values(|l: LaneGroup| l@) =~= cl);
        assert(core_repos@.map_values(|r: RepoNode| r@) =~= seq![repo("eleve-core@main"@, "eleve-core @ main"@, 3, cl)]);
        let al = seq![lane("lane-app-main"@, "main"@, 2, app_sessions_spec())];
        assert(app_lanes@.map_values(|l: LaneGroup| l@) =~= al);
        assert(app_repos@.map_values(|r: RepoNode| r@) =~= seq![repo("eleve-app@main"@, "eleve-app @ main"@, 2, al)]);
        assert(p0@ == initial_projects_spec()[0]);
        assert(p1@.repos =~= initial_projects_spec()[1].repos);
        assert(p1@ == initial_projects_spec()[1]);
        assert(p2@.repos =~= initial_projects_spec()[2].repos);
        assert(p2@ == initial_projects_spec()[2]);
        assert(p3@.repos =~= Seq::<RepoNodeView>::empty());
        assert(p3@.preview_sessions =~= Seq::<SessionPreviewView>::empty());
        assert(p3@ == initial_projects_spec()[3]);
    }
    let r = vec![p0, p1, p2, p3];
    proof {
        assert(projects_view(r@) =~= initial_projects_spec());
    }
    r
}


pub open spec fn file(name: Seq<char>, path: Seq<char>) -> FsNodeView {
    FsNodeView { name, path, is_dir: false, children: None }
}

pub open spec fn dir(name: Seq<char>, path: Seq<char>, children: Seq<FsNodeView>) -> FsNodeView {
    FsNodeView { name, path, is_dir: true, children: Some(children) }
}

/// The file tree shown at start.
pub open spec fn initial_fs_spec() -> Seq<FsNodeView> {
    seq![
        dir("src"@, "/src"@, seq![
            file("main.rs"@, "/src/main.rs"@),
            dir("ui"@, "/src/ui"@, seq![
                file("mod.rs"@, "/src/ui/mod.rs"@),
                file("chat_area.rs"@, "/src/ui/chat_area.rs"@),
            ]),
        ]),
        file("Cargo.toml"@, "/Cargo.toml"@),
        file("README.md"@, "/README.md"@),
        dir("assets"@, "/assets"@, seq![
            dir("icons"@, "/assets/icons"@, seq![
                file("Elogo.svg"@, "/assets/icons/Elogo.svg"@),
            ]),
        ]),
    ]
}

fn fs_file(name: &str, path: &str) -> (n: FsNode)
    ensures
        n@ == file(name@, path@),
{
    FsNode { name: owned(name), path: owned(path), is_dir: false, children: None }
}

fn fs_dir(name: &str, path: &str, children: Vec<FsNode>) -> (n: FsNode)
    ensures
        n@ == dir(name@, path@, fs_seq_view(children@)),
{
    FsNode { name: owned(name), path: owned(path), is_dir: true, children: Some(children) }
}

proof fn lemma_fs_seq_view_one(a: FsNode)
    ensures
        fs_seq_view(seq![a]) == seq![fs_view(a)],
{
    reveal_with_fuel(fs_seq_view, 2);
    assert(seq![a].drop_first() =~= Seq::<FsNode>::empty());
    assert(fs_seq_view(seq![a]) =~= seq![fs_view(a)]);
}

proof fn lemma_fs_seq_view_cons(a: FsNode, rest: Seq<FsNode>)
    ensures
        fs_seq_view(seq![a] + rest) == seq![fs_view(a)] + fs_seq_view(rest),
{
    assert((seq![a] + rest).drop_first() =~= rest);
    assert((seq![a] + rest)[0] == a);
}

/// The file tree shown at start.
pub fn initial_fs() -> (r: Vec<FsNode>)
    ensures
        fs_seq_view(r@) == initial_fs_spec(),
{
    let ui = vec![fs_file("mod.rs", "/src/ui/mod.rs"), fs_file("chat_area.rs", "/src/ui/chat_area.rs")];
    let ghost ui_v = ui@;
    proof {
        lemma_fs_seq_view_cons(ui_v[0], seq![ui_v[1]]);
        lemma_fs_seq_view_one(ui_v[1]);
        assert(ui_v =~= seq![ui_v[0]] + seq![ui_v[1]]);
        assert(fs_seq_view(ui_v) =~= seq![
            file("mod.rs"@, "/src/ui/mod.rs"@),
            file("chat_area.rs"@, "/src/ui/chat_area.rs"@),
        ]);
    }
    let src = vec![fs_file("main.rs", "/src/main.rs"), fs_dir("ui", "/src/ui", ui)];
    let ghost src_v = src@;
    proof {
        lemma_fs_seq_view_cons(src_v[0], seq![src_v[1]]);
        lemma_fs_seq_view_one(src_v[1]);
        assert(src_v =~= seq![src_v[0]] + seq![src_v[1]]);
        assert(fs_seq_view(src_v) =~= initial_fs_spec()[0].children->0);
    }
    let icons = vec![fs_file("Elogo.svg", "/assets/icons/Elogo.svg")];
    let ghost icons_v = icons@;
    proof {
        lemma_fs_seq_view_one(icons_v[0]);
        assert(icons_v =~= seq![icons_v[0]]);
        assert(fs_seq_view(icons_v) =~= seq![file("Elogo.svg"@, "/assets/icons/Elogo.svg"@)]);
    }
    let assets = vec![fs_dir("icons", "/assets/icons", icons)];
    let ghost assets_v = assets@;
    proof {
        lemma_fs_seq_view_one(assets_v[0]);
        assert(assets_v =~= seq![assets_v[0]]);
        assert(fs_seq_view(assets_v) =~= initial_fs_spec()[3].children->0);
    }
    let r = vec![
        fs_dir("src", "/src", src),
        fs_file("Cargo.toml", "/Cargo.toml"),
        fs_file("README.md", "/README.md"),
        fs_dir("assets", "/assets", assets),
    ];
    proof {
        let v = r@;
        lemma_fs_seq_view_cons(v[0], seq![v[1], v[2], v[3]]);
        lemma_fs_seq_view_cons(v[1], seq![v[2], v[3]]);
        lemma_fs_seq_view_cons(v[2], seq![v[3]]);
        lemma_fs_seq_view_one(v[3]);
        assert(seq![v[2], v[3]] =~= seq![v[2]] + seq![v[3]]);
        assert(seq![v[1], v[2], v[3]] =~= seq![v[1]] + seq![v[2], v[3]]);
        assert(v =~= seq![v[0]] + seq![v[1], v[2], v[3]]);
        assert(fs_seq_view(r@) =~= initial_fs_spec());
    }
    r
}

pub open spec fn kcard(id: Seq<char>, title: Seq<char>, status: CardStatus, model: Seq<char>, agent: Seq<char>) -> KanbanCardView {
    KanbanCardView { id, title, status, model, agent }
}

/// The board shown at start.
pub open spec fn initial_kanban_spec() -> Seq<KanbanColumnView> {
    seq![
        KanbanColumnView { id: "todo"@, title: "待办"@, cards: seq![
            kcard("c1"@, "实现文件浏览器虚拟滚动"@, CardStatus::Todo, "qwen3.7-plus"@, "coder"@),
            kcard("c2"@, "接入 Subagent 监控面板"@, CardStatus::Todo, "deepseek"@, "default"@),
            kcard("c3"@, "看板拖拽交互对齐 Hermes"@, CardStatus::Todo, "qwen3.7-plus"@, "ops"@),
        ] },
        KanbanColumnView { id: "doing"@, title: "进行中"@, cards: seq![
            kcard("c4"@, "Markdown 代码高亮渲染"@, CardStatus::Doing, "qwen3.7-plus"@, "coder"@),
            kcard("c5"@, "上下文条 15s 降频轮询"@, CardStatus::Doing, "deepseek"@, "default"@),
        ] },
        KanbanColumnView { id: "review"@, title: "评审"@, cards: seq![
            kcard("c6"@, "Tauri 文件树抖动根治"@, CardStatus::Review, "qwen3.7-plus"@, "coder"@),
        ] },
        KanbanColumnView { id: "done"@, title: "完成"@, cards: seq![
            kcard("c7"@, "1+3 布局骨架"@, CardStatus::Done, "qwen3.7-plus"@, "default"@),
            kcard("c8"@, "图标栏对齐 Tauri"@, CardStatus::Done, "deepseek"@, "default"@),
        ] },
    ]
}

fn make_card(id: &str, title: &str, status: CardStatus, model: &str, agent: &str) -> (c: KanbanCard)
    ensures
        c@ == kcard(id@, title@, status, model@, agent@),
{
    KanbanCard { id: owned(id), title: owned(title), status, model: owned(model), agent: owned(agent) }
}

fn make_column(id: &str, title: &str, cards: Vec<KanbanCard>) -> (c: KanbanColumn)
    ensures
        c@ == (KanbanColumnView { id: id@, title: title@, cards: cards_view(cards@) }),
{
    KanbanColumn { id: owned(id), title: owned(title), cards }
}

/// The board shown at start.
pub fn initial_kanban() -> (r: Vec<KanbanColumn>)
    ensures
        columns_view(r@) == initial_kanban_spec(),
{
    let todo = vec![
        make_card("c1", "实现文件浏览器虚拟滚动", CardStatus::Todo, "qwen3.7-plus", "coder"),
        make_card("c2", "接入 Subagent 监控面板", CardStatus::Todo, "deepseek", "default"),
        make_card("c3", "看板拖拽交互对齐 Hermes", CardStatus::Todo, "qwen3.7-plus", "ops"),
    ];
    let doing = vec![
        make_card("c4", "Markdown 代码高亮渲染", CardStatus::Doing, "qwen3.7-plus", "coder"),
        make_card("c5", "上下文条 15s 降频轮询", CardStatus::Doing, "deepseek", "default"),
    ];
    let review = vec![make_card("c6", "Tauri 文件树抖动根治", CardStatus::Review, "qwen3.7-plus", "coder")];
    let done = vec![
        make_card("c7", "1+3 布局骨架", CardStatus::Done, "qwen3.7-plus", "default"),
        make_card("c8", "图标栏对齐 Tauri", CardStatus::Done, "deepseek", "default"),
    ];
    proof {
        assert(cards_view(todo@) =~= initial_kanban_spec()[0].cards);
        assert(cards_view(doing@) =~= initial_kanban_spec()[1].cards);
        assert(cards_view(review@) =~= initial_kanban_spec()[2].cards);
        assert(cards_view(done@) =~= initial_kanban_spec()[3].cards);
    }
    let r = vec![
        make_column("todo", "待办", todo),
        make_column("doing", "进行中", doing),
        make_column("review", "评审", review),
        make_column("done", "完成", done),
    ];
    proof {
        assert(columns_view(r@) =~= initial_kanban_spec());
    }
    r
}

/// The settings switches at start.
pub open spec fn initial_settings_spec() -> Map<Seq<char>, bool> {
    map![
        "auto_update"@ => true,
        "send_on_enter"@ => true,
        "stream_tokens"@ => true,
        "compact_panel"@ => false,
        "sound_alert"@ => false,
    ]
}

/// The settings switches at start.
pub fn initial_settings() -> (r: Settings)
    ensures
        r@ == initial_settings_spec(),
{
    let mut m = Settings::new();
    m.insert(owned("auto_update"), true);
    m.insert(owned("send_on_enter"), true);
    m.insert(owned("stream_tokens"), true);
    m.insert(owned("compact_panel"), false);
    m.insert(owned("sound_alert"), false);
    proof {
        assert(m@ =~= initial_settings_spec());
    }
    m
}

/// The state the workbench starts in.
pub open spec fn initial_state() -> StateView {
    StateView {
        active_panel: Some(LeftPanel::Agents),
        right_open: false,
        right_tab: RightTab::Files,
        overlay: None,
        input: Seq::empty(),
        messages: initial_messages_spec(),
        profiles: initial_profiles_spec(),
        selected_profile: "default"@,
        projects: initial_projects_spec(),
        expanded_projects: set!["eleve-core"@, "__no_project__"@],
        selected_project: Some("eleve-core"@),
        active_session: Some("s-c1"@),
        drill_project: None,
        create_dialog: None,
        create_input: Seq::empty(),
        fs_root_name: "eleve-iced"@,
        fs_nodes: initial_fs_spec(),
        expanded_dirs: set!["/src"@],
        selected_file: None,
        kanban_columns: initial_kanban_spec(),
        settings: initial_settings_spec(),
    }
}

/// The initial state, and no effect.
pub fn new() -> (r: (State, Action))
    ensures
        r.0@ == initial_state(),
        r.1 == Action::Idle,
{
    let mut expanded_projects = StrSet::new();
    expanded_projects.insert(owned("eleve-core"));
    expanded_projects.insert(owned("__no_project__"));
    let mut expanded_dirs = StrSet::new();
    expanded_dirs.insert(owned("/src"));
    let state = State {
        active_panel: Some(LeftPanel::Agents),
        right_open: false,
        right_tab: RightTab::Files,
        overlay: None,
        input: String::new(),
        messages: initial_messages(),
        profiles: initial_profiles(),
        selected_profile: owned("default"),
        projects: initial_projects(),
        expanded_projects,
        selected_project: Some(owned("eleve-core")),
        active_session: Some(owned("s-c1")),
        drill_project: None,
        create_dialog: None,
        create_input: String::new(),
        fs_root_name: owned("eleve-iced"),
        fs_nodes: initial_fs(),
        expanded_dirs,
        selected_file: None,
        kanban_columns: initial_kanban(),
        settings: initial_settings(),
    };
    proof {
        assert(state@.expanded_projects =~= set!["eleve-core"@, "__no_project__"@]);
        assert(state@.expanded_dirs =~= set!["/src"@]);
        assert(state@.input =~= Seq::<char>::empty());
        assert(state@.create_input =~= Seq::<char>::empty());
    }
    (state, Action::Idle)
}

} // verus!
