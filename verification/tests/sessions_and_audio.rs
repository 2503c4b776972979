use std::collections::VecDeque;

use char_core::audio_sync::{
    append_history, fft_len_for, idx_for_lag, normalize_sizes, split_resampled_channels, ProbeSchedule,
};
use char_core::entry::{
    calendar_step, contacts_outcome, desktop_message, open_message, plan_effects, CalendarStep, ContactsOutcome,
    DesktopAction, EntryAction, EntryEffect, OpenTarget,
};
use char_core::session_files::{
    classify_session_file, Frontmatter, SessionContentData, SessionFileKind, SessionMetaData, SessionMetaDataRaw,
};

#[test]
fn split_resampled_channels_preserves_stereo() {
    let samples = vec![0.1, 0.9, 0.2, 0.8, 0.3, 0.7];
    let channels = split_resampled_channels(&samples, 2);

    assert_eq!(channels, vec![vec![0.1, 0.2, 0.3], vec![0.9, 0.8, 0.7]]);
}

#[test]
fn split_resampled_channels_keeps_mono() {
    let samples = vec![0.1, 0.2, 0.3];
    let channels = split_resampled_channels(&samples, 1);

    assert_eq!(channels, vec![samples]);
}

#[test]
fn uneven_channels_get_what_is_there() {
    let channels = split_resampled_channels(&[1, 2, 3, 4, 5], 3);
    assert_eq!(channels, vec![vec![1, 4], vec![2, 5], vec![3]]);
}

#[test]
fn lags_wrap_around_the_correlation() {
    assert_eq!(idx_for_lag(5, 8192), 5);
    assert_eq!(idx_for_lag(-1, 8192), 8191);
    assert_eq!(idx_for_lag(-960, 8192), 7232);
    assert_eq!(fft_len_for(4096), 8192);
    assert_eq!(fft_len_for(3000), 8192);
    assert_eq!(fft_len_for(0), 1);
}

#[test]
fn probe_sizes_are_made_sane() {
    let s = normalize_sizes(100, 960, 0, 0);
    assert_eq!(s.window_samples, 256);
    assert_eq!(s.max_lag_samples, 255);
    assert_eq!(s.interval_samples, 1);
    assert_eq!(s.level_interval_samples, 1);
    let s = normalize_sizes(4096, 960, 16000, 16000);
    assert_eq!(s.window_samples, 4096);
    assert_eq!(s.max_lag_samples, 960);
}

#[test]
fn probe_measures_once_windows_are_full_and_the_interval_passed() {
    let mut schedule = ProbeSchedule::new(normalize_sizes(256, 64, 256, 16000));
    assert_eq!(schedule.observe(100, 200), (100, false));
    assert_eq!(schedule.observe(0, 50), (0, false));
    assert_eq!(schedule.observe(156, 156), (156, true));
    assert_eq!(schedule.interval_progress, 0);
    assert_eq!(schedule.observe(128, 128), (128, false));
    assert_eq!(schedule.observe(128, 128), (128, true));
    assert_eq!(schedule.processed_samples, 512);
}

#[test]
fn history_keeps_the_last_window() {
    let mut history: VecDeque<i32> = VecDeque::new();
    append_history(4, &mut history, &[1, 2, 3]);
    append_history(4, &mut history, &[4, 5, 6]);
    assert_eq!(history.into_iter().collect::<Vec<_>>(), vec![3, 4, 5, 6]);
}

#[test]
fn session_file_kinds() {
    assert_eq!(classify_session_file("_meta.json"), SessionFileKind::Meta);
    assert_eq!(classify_session_file("transcript.json"), SessionFileKind::Transcript);
    assert_eq!(classify_session_file("_memo.md"), SessionFileKind::Markdown);
    assert_eq!(classify_session_file("notes.md"), SessionFileKind::Markdown);
    assert_eq!(classify_session_file("audio.mp3"), SessionFileKind::Ignored);
    assert_eq!(classify_session_file("md"), SessionFileKind::Ignored);
}

fn fm(id: Option<&str>, session: Option<&str>) -> Frontmatter {
    Frontmatter {
        id: id.map(|s| s.to_string()),
        session_id: session.map(|s| s.to_string()),
        template_id: None,
        position: Some(2),
        title: Some("T".to_string()),
    }
}

#[test]
fn markdown_files_fill_memo_and_notes() {
    let mut content = SessionContentData::empty("s1");
    content.add_markdown("_memo.md", "s1", fm(None, Some("s1")), "  my memo \n", serde_json::Value::String("doc".to_string()));
    assert_eq!(content.raw_memo_markdown.as_deref(), Some("my memo"));
    assert!(content.raw_memo_tiptap_json.is_some());
    content.add_markdown("other.md", "s1", fm(Some("n1"), Some("s2")), "x", serde_json::Value::Null);
    assert!(content.notes.is_empty());
    content.add_markdown("anon.md", "s1", fm(None, Some("s1")), "x", serde_json::Value::Null);
    assert!(content.notes.is_empty());
    content.add_markdown("note.md", "s1", fm(Some("n1"), Some("s1")), "   ", serde_json::Value::Null);
    assert_eq!(content.notes.len(), 1);
    assert_eq!(content.notes[0].id, "n1");
    assert_eq!(content.notes[0].position, Some(2));
    assert!(content.notes[0].markdown.is_none());
}

#[test]
fn missing_meta_lists_are_empty() {
    let meta = SessionMetaData::from_raw(SessionMetaDataRaw {
        id: "s1".to_string(),
        user_id: "u".to_string(),
        created_at: None,
        title: None,
        event: None,
        event_id: None,
        participants: None,
        tags: Some(vec!["a".to_string()]),
    });
    assert!(meta.participants.is_empty());
    assert_eq!(meta.tags, vec!["a".to_string()]);
}

#[test]
fn effects_stop_at_the_first_exit() {
    let effects: Vec<EntryEffect<&str, u8>> = vec![
        EntryEffect::LoadMeetings,
        EntryEffect::OpenAuth,
        EntryEffect::Launch("listen"),
        EntryEffect::LoadModels,
    ];
    let (done, end) = plan_effects(effects);
    assert_eq!(done.len(), 2);
    assert!(matches!(done[0], EntryEffect::LoadMeetings));
    assert!(matches!(end, Some(EntryAction::Launch("listen"))));
    let (done, end) = plan_effects::<&str, u8>(vec![EntryEffect::LoadCalendars]);
    assert_eq!(done.len(), 1);
    assert!(end.is_none());
    let (_, end) = plan_effects::<&str, u8>(vec![EntryEffect::Exit, EntryEffect::RunModel(1)]);
    assert!(matches!(end, Some(EntryAction::Quit)));
}

#[test]
fn entry_status_messages() {
    assert_eq!(open_message(OpenTarget::Auth, Ok(())), "Opened auth page in browser");
    assert_eq!(open_message(OpenTarget::Bug, Err("no browser".to_string())), "no browser");
    assert_eq!(desktop_message(Ok(DesktopAction::OpenedDownloadPage)), "Desktop app not found. Opened download page");
    assert_eq!(calendar_step(Ok(false)), CalendarStep::NotConfigured);
    assert_eq!(calendar_step(Err("e".to_string())), CalendarStep::Failed("e".to_string()));
    let outcome: ContactsOutcome<u8, u8> = contacts_outcome(Err("orgs".to_string()), Err("humans".to_string()));
    assert!(matches!(outcome, ContactsOutcome::LoadError(e) if e == "orgs"));
}
