use char_core::pipeline::ListenerRouting;
use char_core::supervisor::{
    classify_connection_failure, degraded_reason, AudioRetention, ChildKind, DegradedError, InMemoryAudioDisposition,
    SessionMsg, SessionState, StopReason, StopSessionParams, SupervisorAction, SupervisorEvent,
};

fn running(retention: AudioRetention) -> SessionState {
    let mut s = SessionState::new("http://localhost:1234".to_string(), retention, 1, Some(3));
    let _ = s.handle_event(SupervisorEvent::ListenerSpawned(Some(2)));
    s
}

#[test]
fn parse_degraded_reason_uses_json_payload() {
    let reason = "\"ConnectionTimeout\"".to_string();
    let parsed = degraded_reason(Some(reason), Some(DegradedError::ConnectionTimeout));
    assert!(matches!(parsed, DegradedError::ConnectionTimeout));
}

#[test]
fn parse_degraded_reason_falls_back_for_missing_reason() {
    let parsed = degraded_reason(None, None);
    assert!(matches!(parsed, DegradedError::StreamError { .. }));
}

#[test]
fn parse_degraded_reason_falls_back_for_invalid_json() {
    let reason = "not-json".to_string();
    let parsed = degraded_reason(Some(reason), None);
    assert!(matches!(parsed, DegradedError::StreamError { .. }));
}

#[test]
fn shutdown_children_waits_in_source_listener_recorder_order() {
    let mut state = running(AudioRetention::Disk);
    let actions = state.handle_message(SessionMsg::Shutdown(StopSessionParams { in_memory_audio: None }));
    let order: Vec<ChildKind> = actions
        .iter()
        .filter_map(|a| match a {
            SupervisorAction::StopChild { kind, reason, .. } => {
                assert_eq!(*reason, StopReason::SessionStop);
                Some(*kind)
            }
            _ => None,
        })
        .collect();
    assert_eq!(order, vec![ChildKind::Source, ChildKind::Listener, ChildKind::Recorder]);
    assert!(matches!(actions.last(), Some(SupervisorAction::StopSelf { restart_limit_exceeded: false })));
    assert!(state.shutting_down);
    assert!(state.source.is_none() && state.listener.is_none() && state.recorder.is_none());
}

#[test]
fn missing_reason_gets_stock_message() {
    match degraded_reason(None, None) {
        DegradedError::StreamError { message } => assert_eq!(message, "listener terminated without reason"),
        _ => panic!("expected a stream error"),
    }
    match degraded_reason(Some("not-json".to_string()), None) {
        DegradedError::StreamError { message } => assert_eq!(message, "not-json"),
        _ => panic!("expected a stream error"),
    }
}

#[test]
fn connection_failure_messages() {
    assert_eq!(classify_connection_failure("http://localhost:1234"), "Local transcription server is not running");
    assert_eq!(classify_connection_failure("http://127.0.0.1:50060/v1"), "Local transcription server is not running");
    assert_eq!(
        classify_connection_failure("https://api.example.com"),
        "Cannot reach transcription server at https://api.example.com"
    );
}

#[test]
fn listener_spawn_failure_enters_degraded_mode() {
    let mut s = SessionState::new("https://api.example.com".to_string(), AudioRetention::NotKept, 1, None);
    let actions = s.handle_event(SupervisorEvent::ListenerSpawned(None));
    assert!(!s.listener_buffering_enabled);
    assert_eq!(actions.len(), 2);
    assert!(matches!(actions[0], SupervisorAction::SetListenerRouting { source: 1, routing: ListenerRouting::Dropped }));
    match &actions[1] {
        SupervisorAction::EmitDegraded(DegradedError::UpstreamUnavailable { message }) => {
            assert_eq!(message, "Cannot reach transcription server at https://api.example.com")
        }
        _ => panic!("expected a degraded report"),
    }
}

#[test]
fn listener_loss_drops_audio() {
    let mut s = running(AudioRetention::Disk);
    assert_eq!(s.current_listener_routing(), ListenerRouting::Attached(2));
    let actions = s.handle_event(SupervisorEvent::ActorFailed { child: 2, error: "boom".to_string() });
    assert_eq!(s.current_listener_routing(), ListenerRouting::Dropped);
    match &actions[1] {
        SupervisorAction::EmitDegraded(DegradedError::StreamError { message }) => assert_eq!(message, "boom"),
        _ => panic!("expected a degraded report"),
    }
}

#[test]
fn source_restart_counts_unless_device_changed() {
    let mut s = running(AudioRetention::Disk);
    let actions = s.handle_event(SupervisorEvent::ActorTerminated {
        child: 1,
        reason: Some("device_change".to_string()),
        parsed_reason: None,
    });
    assert!(s.source.is_none());
    assert!(matches!(
        actions.as_slice(),
        [SupervisorAction::RestartSource { count_against_budget: false, recorder: Some(3), routing: ListenerRouting::Attached(2) }]
    ));
    let _ = s.handle_event(SupervisorEvent::SourceRestarted(Some(7)));
    assert_eq!(s.source, Some(7));
    let actions = s.handle_event(SupervisorEvent::ActorFailed { child: 7, error: "x".to_string() });
    assert!(matches!(actions.as_slice(), [SupervisorAction::RestartSource { count_against_budget: true, .. }]));
}

#[test]
fn failed_restart_melts_down() {
    let mut s = running(AudioRetention::Disk);
    let _ = s.handle_event(SupervisorEvent::ActorFailed { child: 1, error: "x".to_string() });
    let actions = s.handle_event(SupervisorEvent::SourceRestarted(None));
    assert!(s.shutting_down);
    assert!(matches!(actions.last(), Some(SupervisorAction::StopSelf { restart_limit_exceeded: true })));
    let after = s.handle_event(SupervisorEvent::ActorFailed { child: 2, error: "late".to_string() });
    assert!(after.is_empty());
}

#[test]
fn recorder_loss_resyncs_and_restarts_when_audio_is_kept() {
    let mut s = running(AudioRetention::Memory);
    let actions = s.handle_event(SupervisorEvent::ActorTerminated { child: 3, reason: None, parsed_reason: None });
    assert!(matches!(
        actions.as_slice(),
        [SupervisorAction::SetRecorder { source: 1, recorder: None }, SupervisorAction::RestartRecorder]
    ));
    let actions = s.handle_event(SupervisorEvent::RecorderRestarted(Some(9)));
    assert!(matches!(actions.as_slice(), [SupervisorAction::SetRecorder { source: 1, recorder: Some(9) }]));
}

#[test]
fn memory_audio_gets_its_disposition_before_stopping() {
    let mut s = running(AudioRetention::Memory);
    let actions = s.handle_message(SessionMsg::Shutdown(StopSessionParams { in_memory_audio: None }));
    assert!(matches!(
        actions[0],
        SupervisorAction::SetStopDisposition { recorder_id: 3, disposition: InMemoryAudioDisposition::Discard }
    ));
}

#[test]
fn unknown_child_is_ignored() {
    let mut s = running(AudioRetention::Disk);
    let actions = s.handle_event(SupervisorEvent::ActorFailed { child: 42, error: "?".to_string() });
    assert!(actions.is_empty());
    assert_eq!(s.source, Some(1));
}
