use char_core::listen_route::{batch_route, empty_body_message, listen_step, model_load_failure, BatchRoute, ListenStep};

#[test]
fn bad_queries_are_refused_before_anything_else() {
    match listen_step(Some("websocket"), Some("unknown field `foo`".to_string())) {
        ListenStep::Reject(m) => assert_eq!(m, "unknown field `foo`"),
        _ => panic!("expected a refusal"),
    }
}

#[test]
fn upgrade_header_in_any_case_starts_a_live_session() {
    assert!(matches!(listen_step(Some("websocket"), None), ListenStep::Upgrade));
    assert!(matches!(listen_step(Some("WebSocket"), None), ListenStep::Upgrade));
    assert!(matches!(listen_step(Some("h2c"), None), ListenStep::ReadBody));
    assert!(matches!(listen_step(None, None), ListenStep::ReadBody));
}

#[test]
fn batch_jobs_are_routed_by_body_and_accept_header() {
    assert_eq!(batch_route("text/event-stream", 0), BatchRoute::RejectEmpty);
    assert_eq!(batch_route("text/event-stream", 10), BatchRoute::Sse);
    assert_eq!(batch_route("application/json, text/event-stream;q=0.5", 10), BatchRoute::Sse);
    assert_eq!(batch_route("application/json", 10), BatchRoute::Json);
    assert_eq!(batch_route("", 1), BatchRoute::Json);
    assert_eq!(empty_body_message(), "request body is empty");
    assert_eq!(model_load_failure("no such file"), "failed to load model: no such file");
}
