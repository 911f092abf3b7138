use eleve_ui::collections::Settings;
use eleve_ui::panels::{profile_card, project_card};
use eleve_ui::{new, update, Action, CreateDialog, Message};

#[test]
fn confirm_create_agent_adds_card() {
    let (mut state, _) = new();
    let before = state.profiles.len();
    let _ = update(&mut state, Message::OpenCreateDialog(CreateDialog::Agent));
    let _ = update(&mut state, Message::CreateInputChanged("mytest".into()));
    let _ = update(&mut state, Message::ConfirmCreate);
    assert_eq!(state.profiles.len(), before + 1);
    assert_eq!(state.profiles.first().unwrap().id, "mytest");
    assert_eq!(state.selected_profile, "mytest");
    assert!(state.create_dialog.is_none(), "弹窗应在创建后关闭");
}

#[test]
fn confirm_create_project_adds_card() {
    let (mut state, _) = new();
    let before = state.projects.len();
    let _ = update(&mut state, Message::OpenCreateDialog(CreateDialog::Project));
    let _ = update(&mut state, Message::CreateInputChanged("projx".into()));
    let _ = update(&mut state, Message::ConfirmCreate);
    assert_eq!(state.projects.len(), before + 1);
    assert_eq!(state.projects[1].id, "projx");
    assert_eq!(state.selected_project.as_deref(), Some("projx"));
}

#[test]
fn confirm_create_empty_name_is_noop() {
    let (mut state, _) = new();
    let before = state.profiles.len();
    let _ = update(&mut state, Message::OpenCreateDialog(CreateDialog::Agent));
    let _ = update(&mut state, Message::CreateInputChanged("   ".into()));
    let _ = update(&mut state, Message::ConfirmCreate);
    assert_eq!(state.profiles.len(), before, "空名称不应创建卡片");
}

#[test]
fn view_renders_after_create_no_panic() {
    let (mut state, _) = new();

    let before_p = state.profiles.len();
    let _ = update(&mut state, Message::OpenCreateDialog(CreateDialog::Agent));
    for i in 0..state.profiles.len() {
        let _ = profile_card(&state, i);
    }
    let _ = update(&mut state, Message::CreateInputChanged("testagent".into()));
    let _ = update(&mut state, Message::ConfirmCreate);
    assert_eq!(state.profiles.len(), before_p + 1);
    for i in 0..state.profiles.len() {
        let _ = profile_card(&state, i);
    }
    for i in 0..state.projects.len() {
        let _ = project_card(&state, i);
    }

    let before_j = state.projects.len();
    let _ = update(&mut state, Message::OpenCreateDialog(CreateDialog::Project));
    let _ = update(&mut state, Message::CreateInputChanged("testproj".into()));
    let _ = update(&mut state, Message::ConfirmCreate);
    assert_eq!(state.projects.len(), before_j + 1);
    for i in 0..state.projects.len() {
        let _ = project_card(&state, i);
    }
}

#[test]
fn confirm_create_asks_for_scroll_only_when_created() {
    let (mut state, _) = new();
    let _ = update(&mut state, Message::OpenCreateDialog(CreateDialog::Agent));
    let _ = update(&mut state, Message::CreateInputChanged("  spaced  ".into()));
    assert_eq!(update(&mut state, Message::ConfirmCreate), Action::ScrollAgentsPanelToTop);
    assert_eq!(state.profiles[0].id, "spaced");
    assert_eq!(state.profiles[0].display_name, "spaced");
    assert!(!state.profiles[0].is_default);
    assert_eq!(state.create_input, "");
    let _ = update(&mut state, Message::OpenCreateDialog(CreateDialog::Agent));
    let _ = update(&mut state, Message::CreateInputChanged("\t ".into()));
    assert_eq!(update(&mut state, Message::ConfirmCreate), Action::Idle);
}

#[test]
fn created_project_is_expanded_and_has_path() {
    let (mut state, _) = new();
    let _ = update(&mut state, Message::OpenCreateDialog(CreateDialog::Project));
    let _ = update(&mut state, Message::CreateInputChanged(" np ".into()));
    let _ = update(&mut state, Message::ConfirmCreate);
    assert_eq!(state.projects[0].id, "__no_project__");
    assert_eq!(state.projects[1].path.as_deref(), Some("/projects/np"));
    assert_eq!(state.projects[1].last_active, "刚刚");
    assert!(state.expanded_projects.contains("np"));
}

#[test]
fn confirm_without_dialog_creates_nothing_but_scrolls() {
    let (mut state, _) = new();
    let profiles = state.profiles.len();
    let projects = state.projects.len();
    let _ = update(&mut state, Message::CreateInputChanged("orphan".into()));
    assert_eq!(update(&mut state, Message::ConfirmCreate), Action::ScrollAgentsPanelToTop);
    assert_eq!(state.profiles.len(), profiles);
    assert_eq!(state.projects.len(), projects);
}

#[test]
fn initial_state_matches_the_mock_data() {
    let (state, action) = new();
    assert_eq!(action, Action::Idle);
    assert_eq!(state.messages.len(), 4);
    assert_eq!(state.profiles.len(), 5);
    assert_eq!(state.profiles[0].id, "default");
    assert!(state.profiles[0].is_default);
    assert_eq!(state.profiles[3].model, None);
    assert_eq!(state.projects.len(), 4);
    assert!(state.projects[0].is_no_project);
    assert_eq!(state.projects[1].repos[0].lanes.len(), 2);
    assert_eq!(state.projects[3].is_auto, true);
    assert_eq!(state.selected_project.as_deref(), Some("eleve-core"));
    assert_eq!(state.active_session.as_deref(), Some("s-c1"));
    assert!(state.expanded_projects.contains("eleve-core"));
    assert!(state.expanded_projects.contains("__no_project__"));
    assert!(!state.expanded_projects.contains("eleve-app"));
    assert!(state.expanded_dirs.contains("/src"));
    assert_eq!(state.fs_nodes.len(), 4);
    assert_eq!(state.kanban_columns.len(), 4);
    assert_eq!(state.kanban_columns[0].cards.len(), 3);
    assert_eq!(state.settings.get("auto_update"), Some(true));
    assert_eq!(state.settings.get("compact_panel"), Some(false));
    assert_eq!(state.settings.get("missing"), None);
}

#[test]
fn settings_map_insert_and_toggle() {
    let mut s = Settings::new();
    assert_eq!(s.get("a"), None);
    s.insert("a".into(), false);
    s.toggle("a");
    assert_eq!(s.get("a"), Some(true));
    s.toggle("b");
    assert_eq!(s.get("b"), None);
    s.insert("a".into(), false);
    assert_eq!(s.get("a"), Some(false));
}
