use char_core::command_popup::{highlight_indices, layout, popup_row_count, selected_row, CommandEntry, CommandPopup, Row};
use char_core::keys::{KeyCode, KeyInput};
use char_core::meetings_list::{self, MeetingRow};
use char_core::model_picker;
use char_core::timeline::{self, HumanRow, OrganizationRow, Pane, TimelineRow};
use char_core::update_prompt::{self, apply_outcome, Outcome, PromptControl, UpdateOutcome, ITEM_COUNT};

fn cmd(name: &'static str, group: &'static str) -> CommandEntry {
    CommandEntry { name, description: "d", group, disabled_reason: None }
}

#[test]
fn popup_groups_commands_with_spacers() {
    let commands = [cmd("/listen", "Meeting"), cmd("/quit", "App"), cmd("/connect", "Setup")];
    let rows = layout(&commands, 1);
    assert_eq!(rows.len(), 8);
    assert!(matches!(rows[0], Row::Header("Meeting")));
    assert!(matches!(rows[1], Row::Command { index: 0, selected: false }));
    assert!(matches!(rows[2], Row::Spacer));
    assert!(matches!(rows[3], Row::Header("Setup")));
    assert!(matches!(rows[4], Row::Command { index: 2, selected: true }));
    assert!(matches!(rows[7], Row::Command { index: 1, selected: false }));
    assert_eq!(popup_row_count(&commands), 8);
    assert_eq!(selected_row(&rows), Some(4));
    let popup = CommandPopup::new(&commands, 1, "co");
    assert_eq!(popup.rows().len(), 8);
    assert_eq!(popup.query_text(), "co");
}

#[test]
fn popup_of_unknown_groups_is_empty() {
    let commands = [cmd("/x", "Other")];
    assert_eq!(popup_row_count(&commands), 0);
}

#[test]
fn highlight_prefers_prefix_then_substring_then_subsequence() {
    assert_eq!(highlight_indices("li", "/listen"), vec![0, 1]);
    assert_eq!(highlight_indices(" STE ", "/listen"), vec![2, 3, 4]);
    assert_eq!(highlight_indices("lsn", "/listen"), vec![0, 2, 5]);
    assert_eq!(highlight_indices("xyz", "/listen"), Vec::<usize>::new());
    assert_eq!(highlight_indices("", "/listen"), Vec::<usize>::new());
}

fn human(id: &str, org: &str) -> HumanRow {
    HumanRow {
        id: id.to_string(),
        created_at: String::new(),
        name: id.to_string(),
        email: String::new(),
        org_id: org.to_string(),
        job_title: String::new(),
        linkedin_username: String::new(),
        memo: String::new(),
        pinned: false,
        pin_order: 0,
        user_id: String::new(),
        linked_user_id: None,
    }
}

fn org(id: &str) -> OrganizationRow {
    OrganizationRow { id: id.to_string(), name: id.to_string(), created_at: String::new() }
}

fn key(c: KeyCode) -> KeyInput {
    KeyInput::plain(c)
}

#[test]
fn timeline_filters_people_by_organization() {
    let mut app = timeline::App::new();
    app.set_contacts(vec![org("o1"), org("o2")], vec![human("a", "o1"), human("b", "o2"), human("c", "o1")]);
    assert_eq!(app.filtered_humans().len(), 3);
    assert_eq!(app.human_selected, Some(0));
    let _ = app.handle_key(key(KeyCode::Down));
    assert_eq!(app.org_selected, Some(1));
    assert_eq!(app.selected_org_id(), Some("o1"));
    let names: Vec<&str> = app.filtered_humans().iter().map(|h| h.id.as_str()).collect();
    assert_eq!(names, vec!["a", "c"]);
    let _ = app.handle_key(key(KeyCode::Down));
    let _ = app.handle_key(key(KeyCode::Down));
    assert_eq!(app.org_selected, Some(2));
}

#[test]
fn timeline_enter_walks_to_a_meeting() {
    let mut app = timeline::App::new();
    app.set_contacts(vec![], vec![human("a", "")]);
    assert!(matches!(app.handle_key(key(KeyCode::Enter)), timeline::Outcome::Continue));
    assert_eq!(app.pane, Pane::Humans);
    match app.handle_key(key(KeyCode::Enter)) {
        timeline::Outcome::LoadTimeline(id) => assert_eq!(id, "a"),
        _ => panic!("expected a timeline load"),
    }
    assert!(app.loading_entries);
    assert_eq!(app.pane, Pane::Timeline);
    app.set_entries(vec![
        TimelineRow { source_type: "note".to_string(), source_id: "n1".to_string(), title: String::new(), happened_at: String::new() },
        TimelineRow { source_type: "meeting".to_string(), source_id: "m1".to_string(), title: String::new(), happened_at: String::new() },
    ]);
    assert_eq!(app.entry_selected, Some(0));
    assert!(matches!(app.handle_key(key(KeyCode::Enter)), timeline::Outcome::Continue));
    let _ = app.handle_key(key(KeyCode::Char('j')));
    match app.handle_key(key(KeyCode::Enter)) {
        timeline::Outcome::ViewSession(id) => assert_eq!(id, "m1"),
        _ => panic!("expected a meeting"),
    }
    assert!(matches!(app.handle_key(key(KeyCode::Char('q'))), timeline::Outcome::Exit));
}

#[test]
fn timeline_moving_up_from_nothing_goes_past_the_end() {
    assert_eq!(timeline::select_previous(None), Some(usize::MAX));
    assert_eq!(timeline::select_next(None), Some(0));
    assert_eq!(timeline::select_next(Some(usize::MAX)), Some(usize::MAX));
    assert_eq!(timeline::select_previous(Some(0)), Some(0));
}

fn meeting(id: &str) -> MeetingRow {
    MeetingRow {
        id: id.to_string(),
        created_at: String::new(),
        title: None,
        user_id: String::new(),
        visibility: String::new(),
        folder_id: None,
        event_id: None,
    }
}

#[test]
fn meetings_list_selects_and_opens() {
    let mut app: meetings_list::App<String> = meetings_list::App::new();
    assert!(app.loading());
    app.set_meetings(vec![meeting("m1"), meeting("m2")]);
    app.set_calendar_not_configured();
    assert!(!app.loading());
    assert_eq!(app.calendar_configured, Some(false));
    let _ = app.handle_key(key(KeyCode::Down));
    match app.handle_key(key(KeyCode::Enter)) {
        meetings_list::Outcome::Select(id) => assert_eq!(id, "m2"),
        _ => panic!("expected a selection"),
    }
    let _ = app.handle_key(key(KeyCode::Down));
    assert!(matches!(app.handle_key(key(KeyCode::Enter)), meetings_list::Outcome::Continue));
    assert!(matches!(app.handle_key(key(KeyCode::Esc)), meetings_list::Outcome::Exit));
}

#[test]
fn model_picker_keys() {
    let mut app: model_picker::App<u8> = model_picker::App::new();
    app.set_models(vec![1, 2]);
    assert!(!app.loading);
    assert_eq!(app.selected, Some(0));
    assert!(!app.handle_key(key(KeyCode::Char('j'))));
    assert_eq!(app.selected, Some(1));
    assert!(app.handle_key(key(KeyCode::Char('q'))));
    assert!(app.handle_key(KeyInput::ctrl(KeyCode::Char('c'))));
}

#[test]
fn update_prompt_choices() {
    let mut app = update_prompt::App::new("1.0".to_string(), "1.1".to_string(), "brew upgrade".to_string());
    assert_eq!(app.handle_key(key(KeyCode::Enter)), update_prompt::Outcome::AcceptUpdate);
    for _ in 0..5 {
        let _ = app.handle_key(key(KeyCode::Down));
    }
    assert_eq!(app.selected, ITEM_COUNT - 1);
    assert_eq!(app.handle_key(key(KeyCode::Enter)), update_prompt::Outcome::SkipVersion);
    let _ = app.handle_key(key(KeyCode::Up));
    assert_eq!(app.handle_key(key(KeyCode::Enter)), update_prompt::Outcome::Skip);
    assert_eq!(app.handle_key(KeyInput::ctrl(KeyCode::Char('c'))), update_prompt::Outcome::Skip);
    assert_eq!(app.handle_key(key(KeyCode::Char('c'))), update_prompt::Outcome::Continue);
    assert_eq!(app.handle_key(key(KeyCode::Esc)), update_prompt::Outcome::Skip);
}

#[test]
fn update_prompt_choices_close_with_an_answer() {
    let step = apply_outcome(Outcome::AcceptUpdate);
    assert_eq!(step.control, PromptControl::Exit(UpdateOutcome::RunUpdate));
    assert!(!step.skip_version);
    let step = apply_outcome(Outcome::SkipVersion);
    assert_eq!(step.control, PromptControl::Exit(UpdateOutcome::Continue));
    assert!(step.skip_version);
    let step = apply_outcome(Outcome::Skip);
    assert_eq!(step.control, PromptControl::Exit(UpdateOutcome::Continue));
    assert!(!step.skip_version);
    assert_eq!(apply_outcome(Outcome::Continue).control, PromptControl::Continue);
}
