use char_core::cactus_proxy::{proxied_status, upstream_url, CactusProxyConfig, ProxyRoute};
use char_core::colors::parse_hex_color;
use char_core::post_meeting::{
    memo_note, title_from_summary, to_persistable_hints, words_to_transcript_text, ExitEvent, FinalizedWord,
    PostMeeting, PostMeetingInput, PostMeetingRequest, RuntimeSpeakerHint, WordRef,
};
use char_core::settings::{
    calendar_connection_id, calendar_row_id, llm_overrides, pretty_config_lines, provider_setting_key, saved_message,
    setting_value, stt_overrides, ConnectionType, GlobalArgs, LlmOverrides,
};
use char_core::transcripts::{
    assemble_segments, event_date_label, extract_transcript, lay_out_wrapped, show_speaker, BatchAlternative,
    BatchChannel, SegmentAlternative, StreamSegment,
};
use char_core::vad_errors::{decimal_text, Error};

#[test]
fn title_takes_the_first_sentence() {
    assert_eq!(title_from_summary("  Quarterly planning. We agreed on dates!"), "Quarterly planning");
    assert_eq!(title_from_summary("Is this done? Yes."), "Is this done");
    assert_eq!(title_from_summary("no terminator"), "no terminator");
    assert_eq!(title_from_summary(""), "");
    assert_eq!(title_from_summary(".starts with a stop"), "");
}

#[test]
fn long_titles_are_cut_on_a_character_boundary() {
    let long = "a".repeat(100);
    let title = title_from_summary(&long);
    assert_eq!(title, format!("{}…", "a".repeat(80)));
    let wide = "é".repeat(50);
    let title = title_from_summary(&wide);
    assert_eq!(title, format!("{}…", "é".repeat(40)));
    let odd = format!("a{}", "é".repeat(50));
    let title = title_from_summary(&odd);
    assert_eq!(title, format!("a{}…", "é".repeat(39)));
    let exact = "b".repeat(80);
    assert_eq!(title_from_summary(&exact), exact);
}

fn word(text: &str) -> FinalizedWord {
    FinalizedWord { id: String::new(), text: text.to_string(), start_ms: 0, end_ms: 0, channel: 0 }
}

#[test]
fn words_join_with_spaces() {
    assert_eq!(words_to_transcript_text(&[word("hello"), word("there")]), "hello there");
    assert_eq!(words_to_transcript_text(&[]), "");
}

#[test]
fn only_hints_on_stored_words_persist() {
    let hints = vec![
        RuntimeSpeakerHint { target: WordRef::FinalWordId("w1".to_string()), data: 7u8 },
        RuntimeSpeakerHint { target: WordRef::RuntimeIndex(3), data: 8u8 },
        RuntimeSpeakerHint { target: WordRef::FinalWordId("w2".to_string()), data: 9u8 },
    ];
    let kept = to_persistable_hints(&hints);
    assert_eq!(kept.len(), 2);
    assert_eq!(kept[0].word_id, "w1");
    assert_eq!(kept[0].data, 7);
    assert_eq!(kept[1].word_id, "w2");
}

#[test]
fn memo_is_stored_trimmed_unless_blank() {
    assert_eq!(memo_note("m1", "  notes \n"), Some(("m1:memo".to_string(), "notes".to_string())));
    assert_eq!(memo_note("m1", " \n "), None);
}

#[test]
fn post_meeting_reports_each_step() {
    let (mut work, events) = PostMeeting::start("m1".to_string());
    assert!(matches!(events.as_slice(), [ExitEvent::TaskStarted(0)]));
    let (events, next) = work.step(PostMeetingInput::Saved(Ok(())));
    assert!(matches!(events.as_slice(), [ExitEvent::TaskDone(0), ExitEvent::TaskStarted(1)]));
    assert!(matches!(next, PostMeetingRequest::LoadWords));
    let (_, next) = work.step(PostMeetingInput::WordsLoaded(Ok(vec![word("hi"), word("all")])));
    assert!(matches!(next, PostMeetingRequest::PrepareBackend));
    let (_, next) = work.step(PostMeetingInput::BackendReady(Ok(())));
    match next {
        PostMeetingRequest::Summarize(prompt) => assert!(prompt.ends_with("action items.\n\nhi all")),
        _ => panic!("expected a summary request"),
    }
    let (events, next) = work.step(PostMeetingInput::Summarized(Ok(Some("Kickoff. Details".to_string()))));
    assert!(matches!(events.as_slice(), [ExitEvent::TaskDone(1)]));
    match next {
        PostMeetingRequest::Store { title, note_id, summary } => {
            assert_eq!(title, "Kickoff");
            assert_eq!(note_id, "m1:summary");
            assert_eq!(summary, "Kickoff. Details");
        }
        _ => panic!("expected storing"),
    }
}

#[test]
fn post_meeting_failures_end_the_work() {
    let (mut work, _) = PostMeeting::start("m1".to_string());
    let (events, next) = work.step(PostMeetingInput::Saved(Err("disk".to_string())));
    match events.as_slice() {
        [ExitEvent::TaskFailed(0, a), ExitEvent::TaskFailed(1, b)] => {
            assert_eq!(a, "disk");
            assert_eq!(b, "database unavailable");
        }
        _ => panic!("expected two failures"),
    }
    assert!(matches!(next, PostMeetingRequest::Finish));
    let (events, _) = work.step(PostMeetingInput::Summarized(Ok(None)));
    assert!(matches!(events.as_slice(), [ExitEvent::TaskFailed(1, m)] if m == "LLM returned empty response"));
}

#[test]
fn setting_keys_and_messages() {
    assert_eq!(provider_setting_key(ConnectionType::Stt), "current_stt_provider");
    assert_eq!(provider_setting_key(ConnectionType::Llm), "current_llm_provider");
    assert_eq!(calendar_connection_id("apple"), "cal:apple");
    assert_eq!(calendar_row_id("cal:apple", "x1"), "cal:apple:x1");
    assert_eq!(saved_message(&[ConnectionType::Stt, ConnectionType::Llm], "openai"), "Saved stt+llm provider: openai");
}

#[test]
fn configuration_summary_lines() {
    let settings = vec![
        ("current_stt_provider".to_string(), "deepgram".to_string()),
        ("ai_language".to_string(), "en".to_string()),
        ("current_stt_provider".to_string(), "soniox".to_string()),
    ];
    assert_eq!(setting_value(&settings, "current_stt_provider"), Some("soniox"));
    assert_eq!(setting_value(&settings, "spoken_languages"), None);
    let lines = pretty_config_lines(&settings, &["soniox".to_string(), "deepgram".to_string()], &[]);
    assert_eq!(
        lines,
        vec![
            "STT provider:      soniox".to_string(),
            "  available:       soniox, deepgram".to_string(),
            "LLM provider:      (none)".to_string(),
            "AI language:       en".to_string(),
            "Spoken languages:  []".to_string(),
        ]
    );
}

#[test]
fn overrides_copy_global_options() {
    let global = GlobalArgs {
        base_url: Some("http://x".to_string()),
        api_key: None,
        model: Some("m".to_string()),
        language: Some("en".to_string()),
    };
    let stt = stt_overrides(&global, Some(3u8));
    assert_eq!(stt.provider, Some(3));
    assert_eq!(stt.base_url.as_deref(), Some("http://x"));
    assert_eq!(stt.language.as_deref(), Some("en"));
    let llm: LlmOverrides<u8> = llm_overrides(&global);
    assert!(llm.provider.is_none());
    assert_eq!(llm.model.as_deref(), Some("m"));
}

#[test]
fn vad_error_messages() {
    assert_eq!(Error::UnsupportedSampleRate(44100).message(), "Unsupported sample rate: expected 16000 Hz, got 44100 Hz");
    assert_eq!(Error::InvalidConfig("x".to_string()).message(), "Invalid VAD config: x");
    assert_eq!(Error::VadSessionCreationFailed("y".to_string()).message(), "Failed to create VAD session: y");
    assert_eq!(Error::VadProcessingFailed("z".to_string()).message(), "Failed to process audio: z");
    assert_eq!(decimal_text(0), "0");
    assert_eq!(decimal_text(u64::MAX), u64::MAX.to_string());
}

#[test]
fn hex_colors() {
    assert_eq!(parse_hex_color("#1a2B3c"), Some((0x1a, 0x2b, 0x3c)));
    assert_eq!(parse_hex_color("##ffffff00"), Some((255, 255, 255)));
    assert_eq!(parse_hex_color("+f+f+f"), Some((15, 15, 15)));
    assert_eq!(parse_hex_color("#12345"), None);
    assert_eq!(parse_hex_color("#12345g"), None);
    assert_eq!(parse_hex_color("éé1234"), None);
}

#[test]
fn transcript_text_and_dates() {
    let channels = vec![
        BatchChannel { alternatives: vec![BatchAlternative { transcript: "  hello ".to_string() }] },
        BatchChannel { alternatives: vec![] },
        BatchChannel { alternatives: vec![BatchAlternative { transcript: "   ".to_string() }] },
        BatchChannel { alternatives: vec![BatchAlternative { transcript: "world".to_string() }] },
    ];
    assert_eq!(extract_transcript(&channels), "hello\nworld");
    assert_eq!(event_date_label("2026-03-19T09:00:00Z"), "2026-03-19 09:00");
    assert_eq!(event_date_label("2026T"), "2026 ");
}

#[test]
fn cactus_upstream() {
    let config = CactusProxyConfig { api_key: "k".to_string(), upstream_base: None };
    assert_eq!(upstream_url(&config, ProxyRoute::Text), "https://104.198.76.3/api/v1/text");
    let config = CactusProxyConfig { api_key: "k".to_string(), upstream_base: Some("http://local".to_string()) };
    assert_eq!(upstream_url(&config, ProxyRoute::Transcribe), "http://local/api/v1/transcribe");
    assert_eq!(proxied_status(404), 404);
    assert_eq!(proxied_status(42), 502);
}

#[test]
fn streamed_segments_assemble_into_one_transcript() {
    let seg = |alts: Vec<(&str, Vec<u32>)>| StreamSegment {
        alternatives: alts
            .into_iter()
            .map(|(t, w)| SegmentAlternative { transcript: t.to_string(), words: w })
            .collect(),
    };
    let assembled = assemble_segments(vec![
        seg(vec![(" hello ", vec![1, 2])]),
        seg(vec![]),
        seg(vec![("   ", vec![9])]),
        seg(vec![("world", vec![3]), ("other", vec![7])]),
    ])
    .unwrap();
    assert_eq!(assembled.transcript, "hello world");
    assert_eq!(assembled.words, vec![1, 2, 3]);
    assert_eq!(assembled.count, 2);
    assert!(assemble_segments(vec![seg(vec![(" ", vec![1])]), seg(vec![])]).is_none());
    assert!(assemble_segments::<u32>(Vec::new()).is_none());
}

#[test]
fn speakers_are_shown_when_they_differ() {
    assert!(show_speaker(2, &[0, 0]));
    assert!(show_speaker(1, &[0, 1, 0]));
    assert!(!show_speaker(1, &[1, 1]));
}

#[test]
fn wrapped_segments_indent_their_continuation_lines() {
    let indent = " ".repeat(22);
    assert_eq!(
        lay_out_wrapped("[00:01 → 00:02]  ", &["one two".to_string(), "three".to_string(), "four".to_string()]),
        format!("[00:01 → 00:02]  one two\n{indent}three\n{indent}four")
    );
    assert_eq!(lay_out_wrapped("L  ", &["only".to_string()]), "L  only");
    assert_eq!(lay_out_wrapped("L  ", &[]), "L  ");
}
