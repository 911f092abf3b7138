//! Properties of the transition `step` that hold over sequences of messages
//! and over every state.
use vstd::prelude::*;
use crate::model::{CardStatus, CreateDialog, KanbanCardView, KanbanColumnView, LeftPanel, ProjectNodeView, RightTab};
use crate::seqs::{any_where, first_where, lemma_any_where, lemma_first_where};
use crate::state::{
    Action, Message, StateView, card_has_id, card_taken, column_has_id, column_holds_card,
    move_card, new_agent, new_project, profile_has_id, profile_lacks_id, project_has_id,
    project_is_home, project_lacks_id, status_for_column, step, take_out_card, toggle_member,
};
use crate::text::trim;

verus! {

/// Toggling the same left panel twice, from a state where no panel or that
/// panel is open, leaves the state as it was.
pub proof fn law_toggle_left_panel_twice(s: StateView, p: LeftPanel)
    requires
        s.active_panel is None || s.active_panel == Some(p),
    ensures
        step(step(s, Message::ToggleLeftPanel(p)).0, Message::ToggleLeftPanel(p)).0 == s,
{
}

/// With the drawer on its Files tab, toggling the files drawer twice leaves
/// the state as it was.
pub proof fn law_toggle_files_twice(s: StateView)
    requires
        s.right_tab == RightTab::Files,
    ensures
        step(step(s, Message::ToggleFiles).0, Message::ToggleFiles).0 == s,
{
}

proof fn lemma_toggle_member_twice(s: Set<Seq<char>>, x: Seq<char>)
    ensures
        toggle_member(toggle_member(s, x), x) == s,
{
    assert(toggle_member(toggle_member(s, x), x) =~= s);
}

/// Expanding and then collapsing a project (or the reverse) leaves the state as it was.
pub proof fn law_toggle_project_expand_twice(s: StateView, id: String)
    ensures
        step(step(s, Message::ToggleProjectExpand(id)).0, Message::ToggleProjectExpand(id)).0 == s,
{
    lemma_toggle_member_twice(s.expanded_projects, id@);
}

/// Opening and then closing a directory (or the reverse) leaves the state as it was.
pub proof fn law_toggle_dir_twice(s: StateView, path: String)
    ensures
        step(step(s, Message::ToggleDir(path)).0, Message::ToggleDir(path)).0 == s,
{
    lemma_toggle_member_twice(s.expanded_dirs, path@);
}

/// Flipping a setting twice leaves the state as it was.
pub proof fn law_toggle_setting_twice(s: StateView, key: String)
    ensures
        step(step(s, Message::ToggleSetting(key)).0, Message::ToggleSetting(key)).0 == s,
{
    if s.settings.dom().contains(key@) {
        assert(s.settings.insert(key@, !s.settings[key@]).insert(key@, s.settings[key@]) =~= s.settings);
    }
}

/// The state after opening the create dialog of `kind`, typing `name` and confirming.
pub open spec fn create_flow(s: StateView, kind: CreateDialog, name: String) -> (StateView, Action) {
    let s1 = step(s, Message::OpenCreateDialog(kind)).0;
    let s2 = step(s1, Message::CreateInputChanged(name)).0;
    step(s2, Message::ConfirmCreate)
}

/// Creating an agent with a non-blank name puts one new agent, named by the
/// trimmed name, at the top of the list, selects it, closes the dialog and
/// scrolls the panel to the top.
pub proof fn law_create_agent(s: StateView, name: String)
    requires
        trim(name@).len() > 0,
    ensures
        ({
            let (t, a) = create_flow(s, CreateDialog::Agent, name);
            &&& t.profiles == seq![new_agent(trim(name@))] + s.profiles
            &&& t.profiles.len() == s.profiles.len() + 1
            &&& t.profiles[0].id == trim(name@)
            &&& t.selected_profile == trim(name@)
            &&& t.create_dialog is None
            &&& t.projects == s.projects
            &&& a == Action::ScrollAgentsPanelToTop
        }),
{
}

/// Creating a project with a non-blank name, when the home bucket comes
/// first, puts the new project right after it, selects and expands it,
/// closes the dialog and scrolls the panel to the top.
pub proof fn law_create_project(s: StateView, name: String)
    requires
        trim(name@).len() > 0,
        s.projects.len() > 0,
        s.projects[0].is_no_project,
    ensures
        ({
            let (t, a) = create_flow(s, CreateDialog::Project, name);
            &&& t.projects.len() == s.projects.len() + 1
            &&& t.projects[0] == s.projects[0]
            &&& t.projects[1] == new_project(trim(name@))
            &&& t.projects[1].id == trim(name@)
            &&& t.selected_project == Some(trim(name@))
            &&& t.expanded_projects.contains(trim(name@))
            &&& t.create_dialog is None
            &&& t.profiles == s.profiles
            &&& a == Action::ScrollAgentsPanelToTop
        }),
{
    let s2 = step(step(s, Message::OpenCreateDialog(CreateDialog::Project)).0, Message::CreateInputChanged(name)).0;
    assert(project_is_home()(s2.projects[0]));
    crate::seqs::lemma_first_where_is(s2.projects, project_is_home(), 0);
}

/// Confirming a blank name creates nothing, closes the dialog and asks for no effect.
pub proof fn law_create_blank_is_noop(s: StateView, kind: CreateDialog, name: String)
    requires
        trim(name@).len() == 0,
    ensures
        ({
            let (t, a) = create_flow(s, kind, name);
            &&& t.profiles == s.profiles
            &&& t.projects == s.projects
            &&& t.selected_profile == s.selected_profile
            &&& t.selected_project == s.selected_project
            &&& t.create_dialog is None
            &&& a == Action::Idle
        }),
{
}

/// Confirming always closes the create dialog and clears its input.
pub proof fn law_confirm_closes_dialog(s: StateView)
    ensures
        step(s, Message::ConfirmCreate).0.create_dialog is None,
        step(s, Message::ConfirmCreate).0.create_input == Seq::<char>::empty(),
{
}

/// The only effect is the scroll, asked for exactly when a non-blank name is confirmed.
pub proof fn law_scroll_only_after_create(s: StateView, m: Message)
    ensures
        step(s, m).1 == Action::ScrollAgentsPanelToTop <==> (m is ConfirmCreate && trim(s.create_input).len() > 0),
{
}

/// Sending a non-blank input appends the user's trimmed message and one reply
/// and clears the input; a blank input changes nothing.
pub proof fn law_send(s: StateView)
    ensures
        ({
            let t = step(s, Message::SendPressed).0;
            if trim(s.input).len() > 0 {
                &&& t.messages.len() == s.messages.len() + 2
                &&& t.messages.take(s.messages.len() as int) == s.messages
                &&& t.messages[s.messages.len() as int].role == "user"@
                &&& t.messages[s.messages.len() as int].content == trim(s.input)
                &&& t.messages[s.messages.len() as int + 1].role == "assistant"@
                &&& t.input.len() == 0
            } else {
                t == s
            }
        }),
{
    let t = step(s, Message::SendPressed).0;
    if trim(s.input).len() > 0 {
        assert(t.messages.take(s.messages.len() as int) =~= s.messages);
    }
}

/// Deleting an agent removes every agent with that id and keeps the others in
/// order; whenever agents remain, the selection names one of them.
pub proof fn law_delete_profile(s: StateView, id: String)
    ensures
        ({
            let t = step(s, Message::DeleteProfile(id)).0;
            &&& t.profiles == s.profiles.filter(profile_lacks_id(id@))
            &&& !any_where(t.profiles, profile_has_id(id@))
            &&& t.profiles.len() > 0 ==> any_where(t.profiles, profile_has_id(t.selected_profile))
        }),
{
    let t = step(s, Message::DeleteProfile(id)).0;
    broadcast use vstd::seq_lib::group_filter_ensures;
    assert forall|j: int| 0 <= j < t.profiles.len() implies !profile_has_id(id@)(
        #[trigger] t.profiles[j],
    ) by {
        assert(profile_lacks_id(id@)(t.profiles[j]));
    }
    if t.profiles.len() > 0 {
        if !any_where(t.profiles, profile_has_id(s.selected_profile)) && !any_where(
            t.profiles,
            profile_has_id("default"@),
        ) {
            assert(profile_has_id(t.profiles[0].id)(t.profiles[0]));
        }
    }
}

/// Deleting a project removes every project with that id and keeps the others
/// in order; whenever projects remain, the selection names one of them; the
/// drill-down never stays on the deleted project.
pub proof fn law_delete_project(s: StateView, id: String)
    ensures
        ({
            let t = step(s, Message::DeleteProject(id)).0;
            &&& t.projects == s.projects.filter(project_lacks_id(id@))
            &&& !any_where(t.projects, project_has_id(id@))
            &&& t.projects.len() > 0 ==> (t.selected_project matches Some(sel) && any_where(
                t.projects,
                project_has_id(sel),
            ))
            &&& t.drill_project != Some(id@)
        }),
{
    let t = step(s, Message::DeleteProject(id)).0;
    broadcast use vstd::seq_lib::group_filter_ensures;
    assert forall|j: int| 0 <= j < t.projects.len() implies !project_has_id(id@)(
        #[trigger] t.projects[j],
    ) by {
        assert(project_lacks_id(id@)(t.projects[j]));
    }
    if t.projects.len() > 0 {
        assert(project_has_id(t.projects[0].id)(t.projects[0]));
    }
}

/// Number of cards on a board.
pub open spec fn total_cards(cols: Seq<KanbanColumnView>) -> nat
    decreases cols.len(),
{
    if cols.len() == 0 {
        0
    } else {
        total_cards(cols.drop_last()) + cols.last().cards.len()
    }
}

proof fn lemma_total_cards_update(cols: Seq<KanbanColumnView>, i: int, c: KanbanColumnView)
    requires
        0 <= i < cols.len(),
    ensures
        total_cards(cols.update(i, c)) + cols[i].cards.len() == total_cards(cols) + c.cards.len(),
    decreases cols.len(),
{
    if i < cols.len() - 1 {
        assert(cols.update(i, c).drop_last() =~= cols.drop_last().update(i, c));
        lemma_total_cards_update(cols.drop_last(), i, c);
    } else {
        assert(cols.update(i, c).drop_last() =~= cols.drop_last());
    }
}

/// Moving a card to an existing column keeps the number of cards on the
/// board, and the card ends last in the target column with the status of
/// that column.
pub proof fn law_move_card_conserves(cols: Seq<KanbanColumnView>, card: Seq<char>, target: Seq<char>)
    requires
        card_taken(cols, card) is Some,
        any_where(cols, column_has_id(target)),
    ensures
        ({
            let after = move_card(cols, card, target);
            let moved = card_taken(cols, card)->0;
            let t = first_where(take_out_card(cols, card), column_has_id(target))->0;
            &&& total_cards(after) == total_cards(cols)
            &&& after[t].id == target
            &&& after[t].cards.last().id == moved.id
            &&& after[t].cards.last().title == moved.title
            &&& after[t].cards.last().status == status_for_column(target, moved.status)
        }),
{
    let c = first_where(cols, column_holds_card(card))->0;
    lemma_first_where(cols, column_holds_card(card));
    let cards = cols[c].cards;
    lemma_any_where(cards, card_has_id(card));
    lemma_first_where(cards, card_has_id(card));
    let k = first_where(cards, card_has_id(card))->0;
    let removed = take_out_card(cols, card);
    let newc = KanbanColumnView { cards: cards.remove(k), ..cols[c] };
    lemma_total_cards_update(cols, c, newc);
    assert(removed == cols.update(c, newc));
    assert forall|j: int| 0 <= j < removed.len() implies (column_has_id(target)(#[trigger] removed[j])
        <==> column_has_id(target)(cols[j])) by {
        if j == c {
            assert(removed[j].id == cols[j].id);
        }
    }
    lemma_any_where(cols, column_has_id(target));
    let w = choose|j: int| 0 <= j < cols.len() && column_has_id(target)(#[trigger] cols[j]);
    assert(column_has_id(target)(removed[w]));
    lemma_any_where(removed, column_has_id(target));
    lemma_first_where(removed, column_has_id(target));
    let t = first_where(removed, column_has_id(target))->0;
    let moved = KanbanCardView { status: status_for_column(target, cards[k].status), ..cards[k] };
    let newt = KanbanColumnView { cards: removed[t].cards.push(moved), ..removed[t] };
    lemma_total_cards_update(removed, t, newt);
}

/// A card moved into the column `todo`, `doing`, `review` or `done` takes the
/// status Todo, Doing, Review or Done, whatever its status was; moved into a
/// column with any other id it keeps its status.
pub proof fn law_move_card_status(cols: Seq<KanbanColumnView>, card: Seq<char>, target: Seq<char>)
    requires
        card_taken(cols, card) is Some,
        any_where(cols, column_has_id(target)),
    ensures
        ({
            let after = move_card(cols, card, target);
            let moved = card_taken(cols, card)->0;
            let t = first_where(take_out_card(cols, card), column_has_id(target))->0;
            let status = after[t].cards.last().status;
            &&& target == "todo"@ ==> status == CardStatus::Todo
            &&& target == "doing"@ ==> status == CardStatus::Doing
            &&& target == "review"@ ==> status == CardStatus::Review
            &&& target == "done"@ ==> status == CardStatus::Done
            &&& (target != "todo"@ && target != "doing"@ && target != "review"@ && target != "done"@)
                ==> status == moved.status
        }),
{
    law_move_card_conserves(cols, card, target);
    reveal_strlit("todo");
    reveal_strlit("doing");
    reveal_strlit("review");
    reveal_strlit("done");
    assert("todo"@[0] != "doing"@[0] && "todo"@[0] != "review"@[0] && "todo"@[0] != "done"@[0]);
    assert("doing"@[0] != "review"@[0] && "review"@[0] != "done"@[0]);
    assert("doing"@.len() != "done"@.len());
}

/// Deleting a project leaves the selection alone when the selected project is
/// not the one deleted and still exists.
pub proof fn law_delete_project_keeps_selection(s: StateView, id: String)
    requires
        s.selected_project matches Some(sel) && sel != id@ && exists|j: int|
            0 <= j < s.projects.len() && #[trigger] s.projects[j].id == sel,
    ensures
        step(s, Message::DeleteProject(id)).0.selected_project == s.selected_project,
{
    let sel = s.selected_project->0;
    let j = choose|j: int| 0 <= j < s.projects.len() && #[trigger] s.projects[j].id == sel;
    let t = s.projects.filter(project_lacks_id(id@));
    broadcast use vstd::seq_lib::group_filter_ensures;
    assert(project_lacks_id(id@)(s.projects[j]));
    assert(s.projects.contains(s.projects[j]));
    assert(t.contains(s.projects[j]));
    let k = choose|k: int| 0 <= k < t.len() && t[k] == s.projects[j];
    assert(project_has_id(sel)(t[k]));
}

/// Deleting an agent leaves the selection alone when the selected agent is
/// not the one deleted and still exists.
pub proof fn law_delete_profile_keeps_selection(s: StateView, id: String)
    requires
        s.selected_profile != id@,
        exists|j: int| 0 <= j < s.profiles.len() && #[trigger] s.profiles[j].id == s.selected_profile,
    ensures
        step(s, Message::DeleteProfile(id)).0.selected_profile == s.selected_profile,
{
    let sel = s.selected_profile;
    let j = choose|j: int| 0 <= j < s.profiles.len() && #[trigger] s.profiles[j].id == sel;
    let t = s.profiles.filter(profile_lacks_id(id@));
    broadcast use vstd::seq_lib::group_filter_ensures;
    assert(profile_lacks_id(id@)(s.profiles[j]));
    assert(s.profiles.contains(s.profiles[j]));
    assert(t.contains(s.profiles[j]));
    let k = choose|k: int| 0 <= k < t.len() && t[k] == s.profiles[j];
    assert(profile_has_id(sel)(t[k]));
}

/// While the home bucket comes first, it stays first after any message but
/// the deletion of the home bucket itself.
pub proof fn law_home_stays_first(s: StateView, m: Message)
    requires
        s.projects.len() > 0,
        s.projects[0].is_no_project,
        !(m matches Message::DeleteProject(id) && id@ == s.projects[0].id),
    ensures
        step(s, m).0.projects.len() > 0,
        step(s, m).0.projects[0] == s.projects[0],
{
    match m {
        Message::DeleteProject(id) => {
            lemma_filter_keeps_head(s.projects, project_lacks_id(id@));
        },
        Message::ConfirmCreate => {
            if trim(s.create_input).len() > 0 && s.create_dialog == Some(CreateDialog::Project) {
                assert(project_is_home()(s.projects[0]));
                crate::seqs::lemma_first_where_is(s.projects, project_is_home(), 0);
            }
        },
        _ => {},
    }
}

proof fn lemma_filter_keeps_head(s: Seq<ProjectNodeView>, p: spec_fn(ProjectNodeView) -> bool)
    requires
        s.len() > 0,
        p(s[0]),
    ensures
        s.filter(p).len() > 0,
        s.filter(p)[0] == s[0],
    decreases s.len(),
{
    reveal_with_fuel(Seq::<ProjectNodeView>::filter, 1);
    if s.len() == 1 {
        assert(s.drop_last() =~= Seq::<ProjectNodeView>::empty());
        assert(s.drop_last().filter(p) =~= Seq::<ProjectNodeView>::empty());
    } else {
        assert(s.drop_last()[0] == s[0]);
        lemma_filter_keeps_head(s.drop_last(), p);
    }
}

/// No message changes the file tree, and the settings keep their keys:
/// only switches flip.
pub proof fn law_fixed_parts(s: StateView, m: Message)
    ensures
        step(s, m).0.fs_nodes == s.fs_nodes,
        step(s, m).0.fs_root_name == s.fs_root_name,
        step(s, m).0.settings.dom() == s.settings.dom(),
{
    if let Message::ToggleSetting(key) = m {
        if s.settings.dom().contains(key@) {
            assert(s.settings.insert(key@, !s.settings[key@]).dom() =~= s.settings.dom());
        }
    }
}

/// The conversation only grows: every message keeps the earlier ones, in order.
pub proof fn law_messages_only_grow(s: StateView, m: Message)
    ensures
        step(s, m).0.messages.len() >= s.messages.len(),
        step(s, m).0.messages.take(s.messages.len() as int) == s.messages,
{
    assert(step(s, m).0.messages.take(s.messages.len() as int) =~= s.messages);
}

/// The initial state is consistent: the selected agent and project exist, the
/// home bucket comes first, and the active session belongs to the selected project.
pub proof fn law_initial_state_consistent()
    ensures
        ({
            let s = crate::data::initial_state();
            &&& any_where(s.profiles, profile_has_id(s.selected_profile))
            &&& s.selected_project matches Some(id) && any_where(s.projects, project_has_id(id))
            &&& s.projects.len() > 0 && s.projects[0].is_no_project
            &&& s.active_session == crate::state::first_session_of(s.projects, s.selected_project->0)
            &&& s.create_dialog is None
        }),
{
    let s = crate::data::initial_state();
    assert(profile_has_id(s.selected_profile)(s.profiles[0]));
    assert(project_has_id("eleve-core"@)(s.projects[1]));
    assert(!project_has_id("eleve-core"@)(s.projects[0])) by {
        reveal_strlit("eleve-core");
        reveal_strlit("__no_project__");
        assert(s.projects[0].id[0] != s.projects[1].id[0]);
    }
    crate::seqs::lemma_first_where_is(s.projects, project_has_id("eleve-core"@), 1);
}

} // verus!
