use char_core::keys::{KeyCode, KeyInput};
use char_core::meeting_view::{Action, App, Effect, Mode};

#[test]
fn wq_exits_only_after_successful_save() {
    let mut app: App<String> = App::new("session-1".to_string());
    app.command_buffer = "wq".to_string();
    app.mode = Mode::Command;

    let effects = app.dispatch(Action::Key(KeyInput::plain(KeyCode::Enter)));
    assert!(matches!(effects.as_slice(), [Effect::SaveMemo { .. }]));

    let effects = app.dispatch(Action::Saved);
    assert!(matches!(effects.as_slice(), [Effect::Exit]));
}

#[test]
fn wq_does_not_exit_when_save_fails() {
    let mut app: App<String> = App::new("session-1".to_string());
    app.command_buffer = "wq".to_string();
    app.mode = Mode::Command;

    let effects = app.dispatch(Action::Key(KeyInput::plain(KeyCode::Enter)));
    assert!(matches!(effects.as_slice(), [Effect::SaveMemo { .. }]));

    let effects = app.dispatch(Action::SaveError("boom".to_string()));
    assert!(effects.is_empty());
    assert_eq!(app.error(), Some("save failed: boom"));
}

#[test]
fn focus_follows_the_mode() {
    let mut app: App<String> = App::new("session-2".to_string());
    assert!(app.transcript_focused());
    assert!(!app.memo_focused());
    app.mode = Mode::Insert;
    assert!(app.memo_focused());
    assert!(!app.transcript_focused());
    app.sync_memo("notes".to_string());
    assert_eq!(app.memo_text, "notes");
}

#[test]
fn pastes_go_into_the_memo_only_in_insert_mode() {
    let mut app: App<String> = App::new("session-3".to_string());
    assert!(app.dispatch(Action::Paste("a\r\nb".to_string())).is_empty());
    assert!(!app.memo_dirty);
    app.dispatch(Action::Key(KeyInput::plain(KeyCode::Char('i'))));
    assert_eq!(app.mode, Mode::Insert);
    let effects = app.dispatch(Action::Paste("a\r\nb\rc".to_string()));
    assert!(matches!(effects.as_slice(), [Effect::InsertIntoMemo(t)] if t == "a\nb\nc"));
    assert!(app.memo_dirty);
}

#[test]
fn motion_keys_scroll_the_transcript() {
    let mut app: App<String> = App::new("session-4".to_string());
    let effects = app.dispatch(Action::Key(KeyInput::plain(KeyCode::Char('G'))));
    assert_eq!(effects.len(), 1);
    assert!(matches!(effects[0], Effect::ScrollTranscript(_)));
    assert_eq!(app.mode, Mode::Normal);
}
