use char_core::calendar::{
    compute_sync_plan, extract_meeting_link, normalize_calendar_event, parse_meeting_link, AttendeeRole,
    AttendeeStatus, CalendarEvent, CalendarProviderType, EventAttendee, EventParticipant, EventPerson,
    EventStatus, ExistingEvent, IncomingEvent, IncomingParticipants,
};

fn make_incoming(tracking_id: &str, title: &str) -> IncomingEvent {
    IncomingEvent {
        tracking_id_event: tracking_id.to_string(),
        tracking_id_calendar: "cal-1".to_string(),
        title: title.to_string(),
        started_at: "2026-03-19T09:00:00Z".to_string(),
        ended_at: "2026-03-19T10:00:00Z".to_string(),
        location: String::new(),
        meeting_link: String::new(),
        description: String::new(),
        recurrence_series_id: String::new(),
        has_recurrence_rules: false,
        is_all_day: false,
    }
}

fn make_existing(id: &str, tracking_id: &str) -> ExistingEvent {
    ExistingEvent {
        id: id.to_string(),
        user_id: "user-1".to_string(),
        calendar_id: "cal-local-1".to_string(),
        tracking_id_event: tracking_id.to_string(),
        title: "Old Title".to_string(),
        started_at: "2026-03-19T09:00:00Z".to_string(),
        ended_at: "2026-03-19T10:00:00Z".to_string(),
        location: String::new(),
        meeting_link: String::new(),
        description: String::new(),
        note: String::new(),
        recurrence_series_id: String::new(),
        has_recurrence_rules: false,
        is_all_day: false,
        participants_json: "[]".to_string(),
        raw_json: "{}".to_string(),
        created_at: "2026-03-18T00:00:00Z".to_string(),
    }
}

fn base_event(title: &str) -> CalendarEvent {
    CalendarEvent {
        provider: CalendarProviderType::Google,
        id: "e1".to_string(),
        calendar_id: "cal1".to_string(),
        external_id: "ext1".to_string(),
        title: title.to_string(),
        description: None,
        location: None,
        url: None,
        meeting_link: None,
        started_at: "2026-03-19T09:00:00Z".to_string(),
        ended_at: "2026-03-19T10:00:00Z".to_string(),
        timezone: None,
        is_all_day: false,
        status: EventStatus::Confirmed,
        organizer: None,
        attendees: vec![],
        has_recurrence_rules: false,
        recurring_event_id: None,
        raw: "{}".to_string(),
    }
}

#[test]
fn new_events_get_added() {
    let incoming = vec![make_incoming("t1", "Meeting A")];
    let existing = vec![];
    let participants = IncomingParticipants::new();

    let plan = compute_sync_plan(&incoming, &existing, &participants);

    assert_eq!(plan.to_add.len(), 1);
    assert_eq!(plan.to_add[0].incoming.title, "Meeting A");
    assert!(plan.to_update.is_empty());
    assert!(plan.to_delete.is_empty());
}

#[test]
fn matching_events_get_updated() {
    let incoming = vec![make_incoming("t1", "Updated Meeting")];
    let existing = vec![make_existing("local-1", "t1")];
    let participants = IncomingParticipants::new();

    let plan = compute_sync_plan(&incoming, &existing, &participants);

    assert!(plan.to_add.is_empty());
    assert_eq!(plan.to_update.len(), 1);
    assert_eq!(plan.to_update[0].id, "local-1");
    assert_eq!(plan.to_update[0].incoming.title, "Updated Meeting");
    assert!(plan.to_delete.is_empty());
}

#[test]
fn orphaned_events_get_deleted() {
    let incoming = vec![];
    let existing = vec![make_existing("local-1", "t1")];
    let participants = IncomingParticipants::new();

    let plan = compute_sync_plan(&incoming, &existing, &participants);

    assert!(plan.to_add.is_empty());
    assert!(plan.to_update.is_empty());
    assert_eq!(plan.to_delete.len(), 1);
    assert_eq!(plan.to_delete[0], "local-1");
}

#[test]
fn mixed_add_update_delete() {
    let incoming = vec![make_incoming("t1", "Updated"), make_incoming("t3", "New Event")];
    let existing = vec![make_existing("local-1", "t1"), make_existing("local-2", "t2")];
    let participants = IncomingParticipants::new();

    let plan = compute_sync_plan(&incoming, &existing, &participants);

    assert_eq!(plan.to_add.len(), 1);
    assert_eq!(plan.to_add[0].incoming.tracking_id_event, "t3");
    assert_eq!(plan.to_update.len(), 1);
    assert_eq!(plan.to_update[0].id, "local-1");
    assert_eq!(plan.to_delete.len(), 1);
    assert_eq!(plan.to_delete[0], "local-2");
}

#[test]
fn declined_events_skipped_in_normalize() {
    let mut event = base_event("Declined Meeting");
    event.attendees = vec![EventAttendee {
        name: Some("Me".to_string()),
        email: Some("me@example.com".to_string()),
        is_current_user: true,
        status: AttendeeStatus::Declined,
        role: AttendeeRole::Required,
    }];

    assert!(normalize_calendar_event(&event).is_none());
}

#[test]
fn normalize_extracts_participants() {
    let mut event = base_event("Team Meeting");
    event.location = Some("Room A".to_string());
    event.meeting_link = Some("https://meet.example.com".to_string());
    event.organizer = Some(EventPerson {
        name: Some("Boss".to_string()),
        email: Some("boss@example.com".to_string()),
        is_current_user: false,
    });
    event.attendees = vec![
        EventAttendee {
            name: Some("Boss".to_string()),
            email: Some("boss@example.com".to_string()),
            is_current_user: false,
            status: AttendeeStatus::Accepted,
            role: AttendeeRole::Chair,
        },
        EventAttendee {
            name: Some("Me".to_string()),
            email: Some("me@example.com".to_string()),
            is_current_user: true,
            status: AttendeeStatus::Accepted,
            role: AttendeeRole::Required,
        },
        EventAttendee {
            name: Some("Observer".to_string()),
            email: Some("observer@example.com".to_string()),
            is_current_user: false,
            status: AttendeeStatus::Accepted,
            role: AttendeeRole::NonParticipant,
        },
    ];

    let (incoming, participants) = normalize_calendar_event(&event).unwrap();
    assert_eq!(incoming.title, "Team Meeting");
    assert_eq!(incoming.location, "Room A");
    assert_eq!(participants.len(), 2);
    assert!(participants[0].is_organizer);
    assert_eq!(participants[0].email.as_deref(), Some("boss@example.com"));
    assert!(participants[1].is_current_user);
}

#[test]
fn existing_note_preserved_through_update() {
    let incoming = vec![make_incoming("t1", "Updated Title")];
    let mut existing_event = make_existing("local-1", "t1");
    existing_event.note = "My important notes".to_string();
    let existing = vec![existing_event];
    let participants = IncomingParticipants::new();

    let plan = compute_sync_plan(&incoming, &existing, &participants);

    assert_eq!(plan.to_update.len(), 1);
    assert_eq!(plan.to_update[0].note, "My important notes");
}

#[test]
fn meeting_link_extracted_from_description() {
    let mut event = base_event("Standup");
    event.description = Some("Join at https://meet.google.com/abc-defg-hij".to_string());

    let (incoming, _) = normalize_calendar_event(&event).unwrap();
    assert_eq!(incoming.meeting_link, "https://meet.google.com/abc-defg-hij");
}

#[test]
fn meeting_link_extracted_from_location() {
    let mut event = base_event("Standup");
    event.location = Some("https://us02web.zoom.us/j/123456789?pwd=abc123".to_string());

    let (incoming, _) = normalize_calendar_event(&event).unwrap();
    assert_eq!(incoming.meeting_link, "https://us02web.zoom.us/j/123456789?pwd=abc123");
}

#[test]
fn parse_meeting_link_real_world() {
    let cases = vec![
        (
            "cal.com",
            "Where:\nhttps://app.cal.com/video/d713v9w1d2krBptPtwUAnJ\nNeed to reschedule?",
            "https://app.cal.com/video/d713v9w1d2krBptPtwUAnJ",
        ),
        (
            "zoom with pwd",
            "Where:\nhttps://us05web.zoom.us/j/87636383039?pwd=NOWbxkY9GNblR0yaLKaIzcy76IWRoj.1\nDescription",
            "https://us05web.zoom.us/j/87636383039?pwd=NOWbxkY9GNblR0yaLKaIzcy76IWRoj.1",
        ),
        (
            "google meet",
            "https://meet.google.com/xhv-ubut-zph\ntel:+1%20650-817-8427",
            "https://meet.google.com/xhv-ubut-zph",
        ),
        (
            "zoom in html",
            "<p>Join Zoom Meeting<br/>https://hyprnote.zoom.us/j/86746313244?pwd=zFIICnVHzPim44QcYGbLCAAqtBrGzx.1<br/></p>",
            "https://hyprnote.zoom.us/j/86746313244?pwd=zFIICnVHzPim44QcYGbLCAAqtBrGzx.1",
        ),
        (
            "korean google meet",
            "Google Meet으로 참석: https://meet.google.com/xkf-xcmo-rwh\n또는 다음 전화번호로",
            "https://meet.google.com/xkf-xcmo-rwh",
        ),
    ];

    for (name, input, expected) in cases {
        assert_eq!(parse_meeting_link(input), Some(expected.to_string()), "failed: {name}");
    }
}

#[test]
fn explicit_meeting_link_takes_precedence() {
    let mut event = base_event("Standup");
    event.description = Some("Join at https://meet.google.com/abc-defg-hij".to_string());
    event.meeting_link = Some("https://explicit.link".to_string());

    let (incoming, _) = normalize_calendar_event(&event).unwrap();
    assert_eq!(incoming.meeting_link, "https://explicit.link");
}

#[test]
fn participants_attached_to_sync_plan() {
    let incoming = vec![make_incoming("t1", "Meeting")];
    let existing = vec![];
    let mut participants = IncomingParticipants::new();
    participants.insert(
        "t1".to_string(),
        vec![EventParticipant {
            name: Some("Alice".to_string()),
            email: Some("alice@example.com".to_string()),
            is_organizer: false,
            is_current_user: false,
        }],
    );

    let plan = compute_sync_plan(&incoming, &existing, &participants);

    assert_eq!(plan.to_add.len(), 1);
    assert_eq!(plan.to_add[0].participants.len(), 1);
    assert_eq!(plan.to_add[0].participants[0].email.as_deref(), Some("alice@example.com"));
}

#[test]
fn events_without_tracking_id_are_deleted() {
    let incoming = vec![make_incoming("", "No id")];
    let existing = vec![make_existing("local-1", "")];
    let plan = compute_sync_plan(&incoming, &existing, &IncomingParticipants::new());
    assert_eq!(plan.to_delete, vec!["local-1".to_string()]);
    assert_eq!(plan.to_add.len(), 1);
}

#[test]
fn last_incoming_event_wins_an_update() {
    let incoming = vec![make_incoming("t1", "First"), make_incoming("t1", "Second")];
    let existing = vec![make_existing("local-1", "t1")];
    let plan = compute_sync_plan(&incoming, &existing, &IncomingParticipants::new());
    assert_eq!(plan.to_update.len(), 1);
    assert_eq!(plan.to_update[0].incoming.title, "Second");
}

#[test]
fn no_link_when_none_is_found() {
    assert_eq!(parse_meeting_link("no links here"), None);
    assert_eq!(extract_meeting_link(&[None, Some("plain text")]), None);
    assert_eq!(
        extract_meeting_link(&[Some("see https://example.com/x"), Some("https://meet.google.com/aaa-bbbb-ccc")]),
        Some("https://example.com/x".to_string())
    );
}

#[test]
fn organizer_alone_is_a_participant() {
    let mut event = base_event("Solo");
    event.organizer = Some(EventPerson {
        name: Some("Host".to_string()),
        email: Some("host@example.com".to_string()),
        is_current_user: true,
    });
    let (_, participants) = normalize_calendar_event(&event).unwrap();
    assert_eq!(participants.len(), 1);
    assert!(participants[0].is_organizer);
    assert!(participants[0].is_current_user);
}
