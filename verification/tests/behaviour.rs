use eleve_ui::inline::{parse_inline, Inline};
use eleve_ui::markdown::{is_renderable, markdown_blocks, MdBlock};
use eleve_ui::panels::{
    can_send, file_rows, files_active, icon_relative_path, move_targets, panel_active,
    section_title, setting_on, tree_height, LeadIcon,
};
use eleve_ui::state::find_card;
use eleve_ui::theme::{
    hex_channels, parse_hex_rgb, scale_per_mille, ThemeSettings, DEFAULT_ACCENT,
};
use eleve_ui::{new, update, Appearance, CardStatus, FontScale, LeftPanel, Message, RightTab};

#[test]
fn toggle_left_panel_twice_restores() {
    let (mut state, _) = new();
    assert_eq!(state.active_panel, Some(LeftPanel::Agents));
    let _ = update(&mut state, Message::ToggleLeftPanel(LeftPanel::Agents));
    assert_eq!(state.active_panel, None);
    let _ = update(&mut state, Message::ToggleLeftPanel(LeftPanel::Agents));
    assert_eq!(state.active_panel, Some(LeftPanel::Agents));
    assert!(panel_active(&state, LeftPanel::Agents));
    assert!(!panel_active(&state, LeftPanel::Kanban));
}

#[test]
fn toggle_other_panel_switches_then_closes() {
    let (mut state, _) = new();
    let _ = update(&mut state, Message::ToggleLeftPanel(LeftPanel::Kanban));
    assert_eq!(state.active_panel, Some(LeftPanel::Kanban));
    let _ = update(&mut state, Message::ToggleLeftPanel(LeftPanel::Kanban));
    assert_eq!(state.active_panel, None);
}

#[test]
fn toggle_files_drawer() {
    let (mut state, _) = new();
    assert!(!files_active(&state));
    let _ = update(&mut state, Message::ToggleFiles);
    assert!(state.right_open);
    assert_eq!(state.right_tab, RightTab::Files);
    assert!(files_active(&state));
    let _ = update(&mut state, Message::ToggleFiles);
    assert!(!state.right_open);
    let _ = update(&mut state, Message::OpenRightTab(RightTab::Terminal));
    let _ = update(&mut state, Message::ToggleFiles);
    assert!(state.right_open);
    assert_eq!(state.right_tab, RightTab::Files);
    let _ = update(&mut state, Message::CloseRight);
    assert!(!state.right_open);
}

#[test]
fn overlays_open_close_and_dismiss() {
    let (mut state, _) = new();
    let _ = update(&mut state, Message::OpenOverlay(eleve_ui::Overlay::About));
    assert_eq!(state.overlay, Some(eleve_ui::Overlay::About));
    let _ = update(&mut state, Message::Dismiss);
    assert_eq!(state.overlay, Some(eleve_ui::Overlay::About));
    let _ = update(&mut state, Message::CloseOverlay);
    assert_eq!(state.overlay, None);
}

#[test]
fn send_appends_user_and_reply() {
    let (mut state, _) = new();
    let _ = update(&mut state, Message::InputChanged("  hi  ".into()));
    assert!(can_send(&state));
    let _ = update(&mut state, Message::SendPressed);
    assert_eq!(state.messages.len(), 6);
    assert_eq!(state.messages[4].role, "user");
    assert_eq!(state.messages[4].content, "hi");
    assert_eq!(state.messages[5].role, "assistant");
    assert_eq!(
        state.messages[5].content,
        "（演示）已收到你的消息：「hi」。这是一段模拟回复，后端接入后将由真实 Agent 生成。"
    );
    assert_eq!(state.input, "");
}

#[test]
fn send_blank_changes_nothing() {
    let (mut state, _) = new();
    let _ = update(&mut state, Message::InputChanged(" \n ".into()));
    assert!(!can_send(&state));
    let _ = update(&mut state, Message::SendPressed);
    assert_eq!(state.messages.len(), 4);
    assert_eq!(state.input, " \n ");
}

#[test]
fn select_project_activates_first_session() {
    let (mut state, _) = new();
    let _ = update(&mut state, Message::SelectProject("eleve-app".into()));
    assert_eq!(state.selected_project.as_deref(), Some("eleve-app"));
    assert_eq!(state.active_session.as_deref(), Some("s-a1"));
    let _ = update(&mut state, Message::SelectProject("eleve-gateway".into()));
    assert_eq!(state.active_session, None);
    let _ = update(&mut state, Message::SelectProject("nowhere".into()));
    assert_eq!(state.selected_project.as_deref(), Some("nowhere"));
    assert_eq!(state.active_session, None);
}

#[test]
fn toggle_project_expand_twice_restores() {
    let (mut state, _) = new();
    let _ = update(&mut state, Message::ToggleProjectExpand("eleve-core".into()));
    assert!(!state.expanded_projects.contains("eleve-core"));
    let _ = update(&mut state, Message::ToggleProjectExpand("eleve-core".into()));
    assert!(state.expanded_projects.contains("eleve-core"));
}

#[test]
fn delete_selected_profile_falls_back_to_default() {
    let (mut state, _) = new();
    let _ = update(&mut state, Message::SelectProfile("coder".into()));
    let _ = update(&mut state, Message::DeleteProfile("coder".into()));
    assert_eq!(state.profiles.len(), 4);
    assert!(state.profiles.iter().all(|p| p.id != "coder"));
    assert_eq!(state.selected_profile, "default");
}

#[test]
fn delete_default_profile_falls_back_to_first() {
    let (mut state, _) = new();
    let _ = update(&mut state, Message::DeleteProfile("default".into()));
    assert_eq!(state.selected_profile, "coder");
    for id in ["coder", "analyst", "writer", "ops"] {
        let _ = update(&mut state, Message::DeleteProfile(id.into()));
    }
    assert!(state.profiles.is_empty());
    assert_eq!(state.selected_profile, "");
}

#[test]
fn delete_project_keeps_a_selection_and_leaves_drill() {
    let (mut state, _) = new();
    let _ = update(&mut state, Message::EnterDrill("eleve-core".into()));
    let _ = update(&mut state, Message::DeleteProject("eleve-core".into()));
    assert_eq!(state.projects.len(), 3);
    assert_eq!(state.selected_project.as_deref(), Some("__no_project__"));
    assert_eq!(state.drill_project, None);
    let _ = update(&mut state, Message::EnterDrill("eleve-app".into()));
    let _ = update(&mut state, Message::DeleteProject("eleve-gateway".into()));
    assert_eq!(state.drill_project.as_deref(), Some("eleve-app"));
    let _ = update(&mut state, Message::ExitDrill);
    assert_eq!(state.drill_project, None);
}

#[test]
fn move_card_changes_column_and_status() {
    let (mut state, _) = new();
    let _ = update(&mut state, Message::MoveCard("c1".into(), "doing".into()));
    assert_eq!(state.kanban_columns[0].cards.len(), 2);
    assert_eq!(state.kanban_columns[1].cards.len(), 3);
    let moved = state.kanban_columns[1].cards.last().unwrap();
    assert_eq!(moved.id, "c1");
    assert_eq!(moved.status, CardStatus::Doing);
    assert_eq!(moved.status.label(), "进行中");
    let total: usize = state.kanban_columns.iter().map(|c| c.cards.len()).sum();
    assert_eq!(total, 8);
}

#[test]
fn move_card_to_missing_column_drops_it() {
    let (mut state, _) = new();
    let _ = update(&mut state, Message::MoveCard("c6".into(), "archive".into()));
    let total: usize = state.kanban_columns.iter().map(|c| c.cards.len()).sum();
    assert_eq!(total, 7);
    let _ = update(&mut state, Message::MoveCard("nope".into(), "done".into()));
    let total: usize = state.kanban_columns.iter().map(|c| c.cards.len()).sum();
    assert_eq!(total, 7);
}

#[test]
fn find_card_takes_out_the_card() {
    let (mut state, _) = new();
    let card = find_card(&mut state.kanban_columns, "c5").unwrap();
    assert_eq!(card.title, "上下文条 15s 降频轮询");
    assert_eq!(state.kanban_columns[1].cards.len(), 1);
    assert!(find_card(&mut state.kanban_columns, "c5").is_none());
}

#[test]
fn move_targets_are_neighbour_columns() {
    let (state, _) = new();
    let (l, r) = move_targets(&state, 0);
    assert_eq!(l, None);
    assert_eq!(r.as_deref(), Some("doing"));
    let (l, r) = move_targets(&state, 3);
    assert_eq!(l.as_deref(), Some("review"));
    assert_eq!(r, None);
}

#[test]
fn toggle_setting_twice_restores_and_unknown_is_ignored() {
    let (mut state, _) = new();
    assert!(setting_on(&state, "auto_update"));
    let _ = update(&mut state, Message::ToggleSetting("auto_update".into()));
    assert!(!setting_on(&state, "auto_update"));
    let _ = update(&mut state, Message::ToggleSetting("auto_update".into()));
    assert!(setting_on(&state, "auto_update"));
    let _ = update(&mut state, Message::ToggleSetting("unknown".into()));
    assert_eq!(state.settings.get("unknown"), None);
    assert!(!setting_on(&state, "unknown"));
}

#[test]
fn file_rows_follow_expanded_dirs() {
    let (mut state, _) = new();
    assert_eq!(tree_height(&state.fs_nodes), Some(3));
    let rows = file_rows(&state);
    let names: Vec<&str> = rows.iter().map(|r| r.name.as_str()).collect();
    assert_eq!(names, vec!["src", "main.rs", "ui", "Cargo.toml", "README.md", "assets"]);
    assert_eq!(rows[1].depth, 1);
    assert!(rows[0].is_open);
    let _ = update(&mut state, Message::ToggleDir("/src/ui".into()));
    let _ = update(&mut state, Message::SelectFile("/src/ui/mod.rs".into()));
    let rows = file_rows(&state);
    assert_eq!(rows.len(), 8);
    assert_eq!(rows[3].name, "mod.rs");
    assert_eq!(rows[3].depth, 2);
    assert!(rows[3].selected);
    let _ = update(&mut state, Message::ToggleDir("/src".into()));
    assert_eq!(file_rows(&state).len(), 4);
}

#[test]
fn profile_and_project_cards() {
    let (state, _) = new();
    let c = eleve_ui::panels::profile_card(&state, 0);
    assert!(c.selected && c.default_badge && !c.deletable && c.show_id);
    let c = eleve_ui::panels::profile_card(&state, 3);
    assert!(c.model.is_none() && c.deletable && !c.selected);
    let p = eleve_ui::panels::project_card(&state, 0);
    assert!(matches!(p.lead, LeadIcon::House));
    assert!(p.expanded && !p.has_menu && p.count_chip.is_none());
    assert_eq!(p.previews.as_ref().unwrap().len(), 3);
    let p = eleve_ui::panels::project_card(&state, 1);
    assert!(matches!(p.lead, LeadIcon::ColorDot));
    assert!(p.selected);
    assert_eq!(p.count_chip, Some(3));
    assert!(p.previews.as_ref().unwrap()[0].active);
    let p = eleve_ui::panels::project_card(&state, 3);
    assert!(matches!(p.lead, LeadIcon::Folder));
    assert!(p.auto_badge && p.previews.is_none());
}

#[test]
fn section_titles_and_icons() {
    assert_eq!(section_title(LeftPanel::Cron), "定时任务");
    assert_eq!(section_title(LeftPanel::Agents), "");
    assert_eq!(icon_relative_path("bot"), "assets/icons/bot.svg");
}

#[test]
fn inline_markdown_runs() {
    let spans = parse_inline("a **b** *c* `d` [e](f) g");
    let kinds: Vec<String> = spans
        .iter()
        .map(|s| match s {
            Inline::Plain(t) => format!("P:{}", t),
            Inline::Code(t) => format!("C:{}", t),
            Inline::Bold(t) => format!("B:{}", t),
            Inline::Italic(t) => format!("I:{}", t),
            Inline::Link(l, u) => format!("L:{}>{}", l, u),
        })
        .collect();
    assert_eq!(kinds, vec!["P:a ", "B:b", "P: ", "I:c", "P: ", "C:d", "P: ", "L:e>f", "P: g"]);
}

#[test]
fn inline_markdown_unclosed_markers() {
    let spans = parse_inline("**ab");
    assert!(matches!(&spans[..], [Inline::Bold(t)] if t == "a"));
    let spans = parse_inline("[x] y");
    assert!(matches!(&spans[..], [Inline::Plain(t)] if t == "[x] y"));
    let spans = parse_inline("`co");
    assert!(matches!(&spans[..], [Inline::Code(t)] if t == "co"));
    assert!(parse_inline("").is_empty());
}

#[test]
fn markdown_blocks_structure() {
    let text = "# Title\n\n- one\n* two\npara a\n  para b\n## Sub\n### Small";
    assert!(is_renderable(text));
    let blocks = markdown_blocks(text);
    assert_eq!(blocks.len(), 5);
    assert!(matches!(&blocks[0], MdBlock::Heading(1, t) if t == "Title"));
    assert!(matches!(&blocks[1], MdBlock::List(items) if items.len() == 2));
    match &blocks[2] {
        MdBlock::Paragraph(spans) => {
            assert!(matches!(&spans[..], [Inline::Plain(t)] if t == "para a para b"))
        }
        _ => panic!("paragraph expected"),
    }
    assert!(matches!(&blocks[3], MdBlock::Heading(2, t) if t == "Sub"));
    assert!(matches!(&blocks[4], MdBlock::Heading(3, t) if t == "Small"));
}

#[test]
fn markdown_empty_and_stuck_lines() {
    assert!(matches!(&markdown_blocks("")[..], [MdBlock::Empty]));
    assert!(matches!(&markdown_blocks(" \r\n ")[..], [MdBlock::Empty]));
    assert!(!is_renderable("#tag"));
    assert!(!is_renderable("ok\n####"));
    assert!(is_renderable("#### "[4..].trim()));
}

#[test]
fn hex_colours() {
    assert_eq!(parse_hex_rgb("#3B82F6"), Some((0x3B, 0x82, 0xF6)));
    assert_eq!(parse_hex_rgb("##ff0000"), Some((255, 0, 0)));
    assert_eq!(parse_hex_rgb("#+F+F+F"), None);
    assert_eq!(parse_hex_rgb("#-F0000"), None);
    assert_eq!(parse_hex_rgb("#12345"), None);
    assert_eq!(parse_hex_rgb("#12345G"), None);
    assert_eq!(parse_hex_rgb("#é1234"), None);
    assert_eq!(parse_hex_rgb("#aé123"), None);
    assert_eq!(parse_hex_rgb("#aééa"), None);
    assert_eq!(parse_hex_rgb("#3B82F6AA"), None);
}

#[test]
fn palette_channels() {
    assert_eq!(hex_channels("#E5E5E7"), Some((0xE5, 0xE5, 0xE7)));
    assert_eq!(hex_channels("#3B82F6AA"), Some((0x3B, 0x82, 0xF6)));
    assert_eq!(hex_channels("#zz8000"), Some((0, 0x80, 0)));
    assert_eq!(hex_channels("#+F0000"), Some((15, 0, 0)));
    assert_eq!(hex_channels("#-F00+1"), Some((-15, 0, 1)));
    assert_eq!(hex_channels("#--++0-"), Some((0, 0, 0)));
    assert_eq!(hex_channels("#aé123"), Some((0, 0, 0x23)));
    assert_eq!(hex_channels("#12345"), None);
}

#[test]
fn theme_apply_and_scale() {
    let mut t = ThemeSettings::new();
    assert!(t.is_dark());
    assert_eq!(t.accent, DEFAULT_ACCENT);
    t.apply("#007AFF", Appearance::Light, FontScale::Large);
    assert!(!t.is_dark());
    assert_eq!(t.accent, "#007AFF");
    t.apply("#007AFF", Appearance::Glass, FontScale::Small);
    assert!(t.is_dark());
    assert_eq!(scale_per_mille(t.font_scale), 875);
    assert_eq!(scale_per_mille(FontScale::Medium), 1000);
}

#[test]
fn file_tree_clone_is_deep_copy() {
    let (state, _) = new();
    let copy: Vec<eleve_ui::FsNode> = state.fs_nodes.iter().map(|n| n.clone()).collect();
    assert_eq!(format!("{:?}", copy), format!("{:?}", state.fs_nodes));
    let src = &copy[0];
    assert_eq!(src.name, "src");
    assert_eq!(src.children.as_ref().unwrap()[1].children.as_ref().unwrap()[1].path, "/src/ui/chat_area.rs");
}
