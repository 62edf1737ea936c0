use room_authz::content::MembershipState;
use room_authz::encryption::{create_default_encryption_event, setup_room_encryption};
use room_authz::error::{EngineError, Violation};
use room_authz::facts::{Fact, Step};
use room_authz::routes::{
    get_state_events_for_key_route, get_state_events_route, is_event_format, send_state_event_for_key_route,
    StateResponse,
};
use room_authz::state::{StateEntry, StateView};
use room_authz::tls::{load_tls_config, ConfigError, NamedGroup, ProtocolVersion};
use room_authz::visibility::{StateFacts, VisibilityQuery};

fn entry(room: &str, event_type: &str, state_key: &str, content: &str) -> StateEntry {
    StateEntry {
        room_id: room.to_owned(),
        event_type: event_type.to_owned(),
        state_key: state_key.to_owned(),
        content: content.to_owned(),
        sender: "@alice:example.org".to_owned(),
    }
}

fn sample() -> StateView {
    let mut state = StateView::new();
    state.commit(entry("!a:example.org", "m.room.create", "", "{\"creator\":\"@alice:example.org\"}")).unwrap();
    state.commit(entry("!b:example.org", "m.room.create", "", "{}")).unwrap();
    state.commit(entry("!a:example.org", "m.room.member", "@alice:example.org", "{\"membership\":\"join\"}")).unwrap();
    state.commit(entry("!a:example.org", "m.room.topic", "", "{\"topic\":\"one\"}")).unwrap();
    state
}

fn joined() -> StateFacts {
    StateFacts { current_membership: Fact::Known(MembershipState::Join), visibility: Fact::Pending }
}

fn outsider() -> StateFacts {
    StateFacts { current_membership: Fact::Known(MembershipState::Leave), visibility: Fact::Known(None) }
}

#[test]
fn room_state_single_finds_an_entry_or_reports_not_found() {
    let state = sample();
    let topic = state.room_state_single("!a:example.org", "m.room.topic", "").unwrap();
    assert_eq!(topic.content, "{\"topic\":\"one\"}");
    assert_eq!(state.room_state_single("!b:example.org", "m.room.topic", ""), Err(EngineError::NotFound));
    assert_eq!(state.room_state_single("!a:example.org", "m.room.topic", "x"), Err(EngineError::NotFound));
    assert_eq!(state.room_state_single("!a:example.org", "m.room.member", ""), Err(EngineError::NotFound));
    assert_eq!(state.room_state_single("!c:example.org", "m.room.create", ""), Err(EngineError::NotFound));
}

#[test]
fn room_state_full_lists_the_entries_of_one_room_in_order() {
    let state = sample();
    let full = state.room_state_full("!a:example.org");
    let types: Vec<&str> = full.iter().map(|e| e.event_type.as_str()).collect();
    assert_eq!(types, vec!["m.room.create", "m.room.member", "m.room.topic"]);
    assert_eq!(state.room_state_full("!b:example.org").len(), 1);
    assert!(state.room_state_full("!c:example.org").is_empty());
}

#[test]
fn a_commit_replaces_the_entry_of_its_key_in_place() {
    let mut state = sample();
    state.commit(entry("!a:example.org", "m.room.member", "@alice:example.org", "{\"membership\":\"leave\"}")).unwrap();
    let full = state.room_state_full("!a:example.org");
    assert_eq!(full.len(), 3);
    assert_eq!(full[1].content, "{\"membership\":\"leave\"}");
    assert_eq!(full[2].event_type, "m.room.topic");
}

#[test]
fn a_create_event_is_never_replaced() {
    let mut state = sample();
    let outcome = state.commit(entry("!a:example.org", "m.room.create", "", "{\"creator\":\"@mallory:example.org\"}"));
    assert_eq!(outcome, Err(EngineError::PolicyViolation(Violation::CreateIsImmutable)));
    let create = state.room_state_single("!a:example.org", "m.room.create", "").unwrap();
    assert_eq!(create.content, "{\"creator\":\"@alice:example.org\"}");
    assert_eq!(state.room_state_full("!a:example.org").len(), 3);
    assert_eq!(state.commit(entry("!c:example.org", "m.room.create", "", "{}")), Ok(()));
}

#[test]
fn reading_all_state_needs_visibility() {
    let state = sample();
    let undecided = StateFacts::new();
    assert_eq!(get_state_events_route(&state, "!a:example.org", &undecided), Step::Ask(VisibilityQuery::CurrentMembership));
    assert_eq!(
        get_state_events_route(&state, "!a:example.org", &outsider()),
        Step::Done(Err(EngineError::PolicyViolation(Violation::StateNotVisible)))
    );
    match get_state_events_route(&state, "!a:example.org", &joined()) {
        Step::Done(Ok(entries)) => assert_eq!(entries.len(), 3),
        other => panic!("{other:?}"),
    }
}

#[test]
fn reading_one_entry_returns_content_or_event() {
    let state = sample();
    let topic = state.room_state_single("!a:example.org", "m.room.topic", "").unwrap();
    assert_eq!(
        get_state_events_for_key_route(&state, "!a:example.org", "m.room.topic", "", None, &joined()),
        Step::Done(Ok(StateResponse { content: Some(&topic.content), event: None }))
    );
    assert_eq!(
        get_state_events_for_key_route(&state, "!a:example.org", "m.room.topic", "", Some("content"), &joined()),
        Step::Done(Ok(StateResponse { content: Some(&topic.content), event: None }))
    );
    assert_eq!(
        get_state_events_for_key_route(&state, "!a:example.org", "m.room.topic", "", Some("EvEnT"), &joined()),
        Step::Done(Ok(StateResponse { content: None, event: Some(topic) }))
    );
}

#[test]
fn reading_one_entry_reports_refusal_before_absence() {
    let state = sample();
    assert_eq!(
        get_state_events_for_key_route(&state, "!a:example.org", "m.room.name", "", None, &outsider()),
        Step::Done(Err(EngineError::PolicyViolation(Violation::StateNotVisible)))
    );
    assert_eq!(
        get_state_events_for_key_route(&state, "!a:example.org", "m.room.name", "", None, &joined()),
        Step::Done(Err(EngineError::NotFound))
    );
    assert_eq!(
        get_state_events_for_key_route(&state, "!a:example.org", "m.room.name", "", None, &StateFacts::new()),
        Step::Ask(VisibilityQuery::CurrentMembership)
    );
}

#[test]
fn the_event_format_is_recognised_in_any_case() {
    assert!(is_event_format(Some("event")));
    assert!(is_event_format(Some("EVENT")));
    assert!(is_event_format(Some("Event")));
    assert!(!is_event_format(Some("content")));
    assert!(!is_event_format(Some("events")));
    assert!(!is_event_format(Some("")));
    assert!(!is_event_format(None));
}

#[test]
fn only_an_application_service_sets_the_timestamp() {
    let build = |timestamp, from_appservice| {
        send_state_event_for_key_route(
            "@alice:example.org".to_owned(),
            "!a:example.org".to_owned(),
            "m.room.topic".to_owned(),
            "".to_owned(),
            "{}".to_owned(),
            timestamp,
            from_appservice,
        )
    };
    assert_eq!(build(Some(1_700_000_000_000), true).timestamp, Some(1_700_000_000_000));
    assert_eq!(build(Some(1_700_000_000_000), false).timestamp, None);
    assert_eq!(build(None, true).timestamp, None);
    let request = build(None, false);
    assert_eq!(request.sender, "@alice:example.org");
    assert_eq!(request.room_id, "!a:example.org");
    assert_eq!(request.event_type, "m.room.topic");
    assert_eq!(request.state_key, "");
    assert_eq!(request.content, "{}");
}

#[test]
fn default_encryption_settings_rotate_after_a_week_or_a_hundred_messages() {
    let settings = create_default_encryption_event();
    assert_eq!(settings.algorithm, "m.megolm.pq.v1.aes-sha2");
    assert_eq!(settings.rotation_period_ms, Some(604_800_000));
    assert_eq!(settings.rotation_period_msgs, Some(100));
}

#[test]
fn direct_chats_are_encrypted_whatever_the_server_allows() {
    assert_eq!(setup_room_encryption(true, false), Some(create_default_encryption_event()));
    assert_eq!(setup_room_encryption(true, true), Some(create_default_encryption_event()));
    assert_eq!(setup_room_encryption(false, true), Some(create_default_encryption_event()));
    assert_eq!(setup_room_encryption(false, false), None);
}

#[test]
fn tls_needs_certificates_and_key() {
    assert_eq!(load_tls_config(None, None), Err(ConfigError::MissingCerts));
    assert_eq!(load_tls_config(None, Some("key.pem".to_owned())), Err(ConfigError::MissingCerts));
    assert_eq!(load_tls_config(Some("certs.pem".to_owned()), None), Err(ConfigError::MissingKey));
    let config = load_tls_config(Some("certs.pem".to_owned()), Some("key.pem".to_owned())).unwrap();
    assert_eq!(config.certs, "certs.pem");
    assert_eq!(config.key, "key.pem");
    assert_eq!(config.key_share_groups, vec![NamedGroup::Kyber768, NamedGroup::X25519]);
    assert_eq!(config.versions, vec![ProtocolVersion::TLSv1_3]);
}
