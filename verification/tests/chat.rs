use char_core::chat::{
    accepted_title, role_text, title_prompt, Action, App, ChatMessageRow, ChatTurn, Effect, Role, Scroll, Speaker,
    MAX_HISTORY,
};
use char_core::keys::{KeyCode, KeyInput};

fn test_app() -> App {
    App::new("model".to_string(), None, "test-session".to_string())
}

fn enter() -> KeyInput {
    KeyInput::plain(KeyCode::Enter)
}

#[test]
fn submit_creates_request_effect() {
    let mut app = test_app();
    app.set_input("hello".to_string());

    let effects = app.dispatch(Action::Key(enter()));

    assert!(effects.iter().any(|e| matches!(e, Effect::Submit { .. })));
    assert!(effects.iter().any(|e| matches!(e, Effect::Persist { .. })));
    assert!(app.streaming());
    assert_eq!(app.transcript.len(), 1);
}

#[test]
fn empty_submit_is_ignored() {
    let mut app = test_app();

    let effects = app.dispatch(Action::Key(enter()));

    assert!(effects.is_empty());
    assert!(app.transcript.is_empty());
}

#[test]
fn stream_failure_preserves_partial_response() {
    let mut app = test_app();
    app.set_input("hello".to_string());
    let _ = app.dispatch(Action::Key(enter()));
    let _ = app.dispatch(Action::StreamChunk("partial".to_string()));
    let effects = app.dispatch(Action::StreamFailed("boom".to_string()));

    assert_eq!(app.transcript.len(), 3);
    assert_eq!(app.transcript[1].content, "partial");
    assert_eq!(app.transcript[2].speaker, Speaker::Error);
    assert!(effects.iter().any(|e| matches!(e, Effect::Persist { .. })));
}

#[test]
fn api_history_is_capped() {
    let mut app = test_app();
    for idx in 0..(MAX_HISTORY + 5) {
        app.push_api_history(ChatTurn { role: Role::User, content: format!("message-{idx}") });
    }

    assert_eq!(app.api_history.len(), MAX_HISTORY);
    assert_eq!(app.working_history().len(), MAX_HISTORY);
}

#[test]
fn empty_stream_completion_shows_error() {
    let mut app = test_app();
    app.set_input("hello".to_string());
    let _ = app.dispatch(Action::Key(enter()));
    let _ = app.dispatch(Action::StreamCompleted(None));

    assert!(!app.streaming());
    assert_eq!(app.transcript.len(), 2);
    assert_eq!(app.transcript[0].speaker, Speaker::User);
    assert_eq!(app.transcript[1].speaker, Speaker::Error);
    assert!(app.last_error.is_some());
}

#[test]
fn history_keeps_the_newest_messages() {
    let mut app = test_app();
    for idx in 0..(MAX_HISTORY + 3) {
        app.push_api_history(ChatTurn { role: Role::User, content: format!("m{idx}") });
    }
    assert_eq!(app.api_history[0].content, "m3");
    assert_eq!(app.api_history[MAX_HISTORY - 1].content, format!("m{}", MAX_HISTORY + 2));
}

#[test]
fn submit_trims_input_and_sends_earlier_history() {
    let mut app = test_app();
    app.push_api_history(ChatTurn { role: Role::Assistant, content: "earlier".to_string() });
    app.set_input("  what next?  \n".to_string());
    let effects = app.dispatch(Action::Key(enter()));
    assert_eq!(effects.len(), 3);
    match &effects[0] {
        Effect::Persist { meeting_id, message_id, role, content } => {
            assert_eq!(meeting_id, "test-session");
            assert_eq!(*role, Role::User);
            assert_eq!(content, "what next?");
            let id: Vec<char> = message_id.chars().collect();
            assert_eq!(id.len(), 36);
            assert!([8, 13, 18, 23].iter().all(|&i| id[i] == '-'));
            assert_eq!(id[14], '4');
            assert!("89ab".contains(id[19]));
        }
        _ => panic!("expected persist"),
    }
    match &effects[1] {
        Effect::Submit { prompt, history } => {
            assert_eq!(prompt, "what next?");
            assert_eq!(history.len(), 1);
            assert_eq!(history[0].content, "earlier");
        }
        _ => panic!("expected submit"),
    }
    assert!(matches!(effects[2], Effect::ResetInput));
    assert_eq!(app.input, "");
    assert_eq!(app.api_history.len(), 2);
    assert_eq!(app.api_history[1].content, "what next?");
}

#[test]
fn completion_with_longer_final_text_wins_and_asks_for_title_once() {
    let mut app = test_app();
    app.set_input("hi".to_string());
    let _ = app.dispatch(Action::Key(enter()));
    let _ = app.dispatch(Action::StreamChunk("Hel".to_string()));
    let effects = app.dispatch(Action::StreamCompleted(Some("Hello there".to_string())));
    assert_eq!(app.transcript[1].content, "Hello there");
    assert_eq!(effects.len(), 2);
    match &effects[1] {
        Effect::GenerateTitle { prompt, response } => {
            assert_eq!(prompt, "hi");
            assert_eq!(response, "Hello there");
        }
        _ => panic!("expected a title request"),
    }
    app.set_input("again".to_string());
    let _ = app.dispatch(Action::Key(enter()));
    let effects = app.dispatch(Action::StreamCompleted(Some("Sure".to_string())));
    assert_eq!(effects.len(), 1);
    assert!(app.title_requested);
}

#[test]
fn completion_with_unrelated_final_text_keeps_stream() {
    let mut app = test_app();
    app.set_input("hi".to_string());
    let _ = app.dispatch(Action::Key(enter()));
    let _ = app.dispatch(Action::StreamChunk("abc".to_string()));
    let _ = app.dispatch(Action::StreamCompleted(Some("xyz and more".to_string())));
    assert_eq!(app.transcript[1].content, "abc");
}

#[test]
fn keys_while_streaming_only_scroll() {
    let mut app = test_app();
    app.set_input("hi".to_string());
    let _ = app.dispatch(Action::Key(enter()));
    let typed = app.dispatch(Action::Key(KeyInput::plain(KeyCode::Char('x'))));
    assert!(typed.is_empty());
    let scrolled = app.dispatch(Action::Key(KeyInput::plain(KeyCode::PageUp)));
    assert!(matches!(scrolled.as_slice(), [Effect::ScrollTranscript(Scroll::PageUp)]));
    assert!(!app.autoscroll);
    let chunk = app.dispatch(Action::StreamChunk("a".to_string()));
    assert!(chunk.is_empty());
    let exit = app.dispatch(Action::Key(KeyInput::ctrl(KeyCode::Char('c'))));
    assert!(matches!(exit.as_slice(), [Effect::Exit]));
}

#[test]
fn chunk_scrolls_to_bottom_while_following() {
    let mut app = test_app();
    app.set_input("hi".to_string());
    let _ = app.dispatch(Action::Key(enter()));
    let effects = app.dispatch(Action::StreamChunk("a".to_string()));
    assert!(matches!(effects.as_slice(), [Effect::ScrollTranscript(Scroll::ToBottom)]));
    assert_eq!(app.pending_assistant(), "a");
}

#[test]
fn paste_normalizes_line_breaks() {
    let mut app = test_app();
    let effects = app.dispatch(Action::Paste("a\r\nb\rc".to_string()));
    match effects.as_slice() {
        [Effect::InsertIntoInput(text)] => assert_eq!(text, "a\nb\nc"),
        _ => panic!("expected an insertion"),
    }
}

#[test]
fn typing_goes_to_the_editor() {
    let mut app = test_app();
    let key = KeyInput::plain(KeyCode::Char('x'));
    let effects = app.dispatch(Action::Key(key));
    assert!(matches!(effects.as_slice(), [Effect::EditInput(k)] if *k == key));
}

fn row(role: &str, content: &str) -> ChatMessageRow {
    ChatMessageRow {
        id: String::new(),
        meeting_id: "test-session".to_string(),
        role: role.to_string(),
        content: content.to_string(),
        created_at: String::new(),
    }
}

#[test]
fn load_history_maps_roles() {
    let mut app = test_app();
    app.load_history(vec![
        row("user", "q"),
        row("assistant", "a"),
        row("system", "s"),
    ]);
    assert_eq!(app.transcript.len(), 3);
    assert_eq!(app.transcript[0].speaker, Speaker::User);
    assert_eq!(app.transcript[1].speaker, Speaker::Assistant);
    assert_eq!(app.transcript[2].speaker, Speaker::Error);
    assert_eq!(app.api_history.len(), 2);
    assert!(app.title_requested);
}

#[test]
fn title_generated_updates_terminal_title() {
    let mut app = test_app();
    assert_eq!(app.title_text(), "chat");
    let effects = app.dispatch(Action::TitleGenerated("Plans".to_string()));
    assert_eq!(app.title_text(), "Plans");
    match effects.as_slice() {
        [Effect::UpdateTitle { meeting_id, title }] => {
            assert_eq!(meeting_id, "test-session");
            assert_eq!(title, "Plans");
        }
        _ => panic!("expected a title update"),
    }
}

#[test]
fn status_reports_error_then_streaming_then_ready() {
    let mut app = test_app();
    assert_eq!(app.status(), "Ready");
    app.set_input("hi".to_string());
    let _ = app.dispatch(Action::Key(enter()));
    assert_eq!(app.status(), "Streaming response...");
    let _ = app.dispatch(Action::StreamFailed("down".to_string()));
    assert_eq!(app.status(), "Error: down");
}

#[test]
fn roles_are_stored_by_name() {
    assert_eq!(role_text(Role::User), "user");
    assert_eq!(role_text(Role::Assistant), "assistant");
}

#[test]
fn title_prompt_quotes_the_first_exchange() {
    assert_eq!(
        title_prompt("hi", "hello there"),
        "Generate a short title (3-5 words) for this conversation. Reply with ONLY the title, no quotes or punctuation.\n\nUser: hi\nAssistant: hello there"
    );
}

#[test]
fn blank_titles_are_refused() {
    assert_eq!(accepted_title("  Weekly sync \n"), Some("Weekly sync".to_string()));
    assert_eq!(accepted_title(" \t\n"), None);
}

#[test]
fn unicode_whitespace_is_trimmed_from_titles() {
    assert_eq!(accepted_title("\u{3000}Sync\u{2028}\u{85}"), Some("Sync".to_string()));
    assert_eq!(accepted_title("\u{a0}\u{200a}"), None);
    assert_eq!(accepted_title("\u{200b}x"), Some("\u{200b}x".to_string()));
}
