use room_authz::content::{classify, EventKind};
use room_authz::error::{Defect, EngineError, Violation};
use room_authz::power::PowerLevels;
use room_authz::table::Table;
use room_authz::text::{is_on_server, on_same_server};

#[test]
fn every_error_has_words() {
    let errors = [
        EngineError::PolicyViolation(Violation::CreateIsImmutable),
        EngineError::PolicyViolation(Violation::EncryptionDisabled),
        EngineError::PolicyViolation(Violation::AdminRoomPublic),
        EngineError::PolicyViolation(Violation::AdminRoomWorldReadable),
        EngineError::PolicyViolation(Violation::AliasNotLocal),
        EngineError::PolicyViolation(Violation::AliasNotResolving),
        EngineError::PolicyViolation(Violation::AlreadyJoined),
        EngineError::PolicyViolation(Violation::AuthorizerNotLocal),
        EngineError::PolicyViolation(Violation::AuthorizerNotJoined),
        EngineError::PolicyViolation(Violation::RedactCreate),
        EngineError::PolicyViolation(Violation::RedactServerAcl),
        EngineError::PolicyViolation(Violation::StateNotVisible),
        EngineError::Malformed(Defect::MembershipContent),
        EngineError::Malformed(Defect::MembershipStateKey),
        EngineError::Malformed(Defect::AuthorizerOnNonJoin),
        EngineError::Malformed(Defect::ContentNotJson),
        EngineError::NotFound,
        EngineError::StorageInconsistency,
    ];
    let mut seen = Vec::new();
    for error in errors {
        let message = error.message();
        assert!(!message.is_empty());
        assert!(!seen.contains(&message), "{message}");
        seen.push(message);
    }
    assert_eq!(
        EngineError::PolicyViolation(Violation::EncryptionDisabled).message(),
        "encryption is disabled on this server"
    );
    assert_eq!(Violation::RedactCreate.message(), "the room-create event cannot be redacted");
    assert_eq!(Defect::ContentNotJson.message(), "the content is not JSON");
}

#[test]
fn event_types_are_classified_by_their_exact_name() {
    assert_eq!(classify("m.room.create"), EventKind::RoomCreate);
    assert_eq!(classify("m.room.encryption"), EventKind::RoomEncryption);
    assert_eq!(classify("m.room.join_rules"), EventKind::RoomJoinRules);
    assert_eq!(classify("m.room.history_visibility"), EventKind::RoomHistoryVisibility);
    assert_eq!(classify("m.room.canonical_alias"), EventKind::RoomCanonicalAlias);
    assert_eq!(classify("m.room.member"), EventKind::RoomMember);
    assert_eq!(classify("m.room.power_levels"), EventKind::RoomPowerLevels);
    assert_eq!(classify("m.room.server_acl"), EventKind::RoomServerAcl);
    assert_eq!(classify("m.room.Create"), EventKind::Other);
    assert_eq!(classify("m.room.create "), EventKind::Other);
    assert_eq!(classify(""), EventKind::Other);
}

#[test]
fn servers_are_compared_by_the_text_after_the_first_colon() {
    assert!(on_same_server("@a:example.org", "@b:example.org"));
    assert!(on_same_server("@a:example.org:8448", "#b:example.org:8448"));
    assert!(!on_same_server("@a:example.org", "@a:example.com"));
    assert!(!on_same_server("nocolon", "nocolon"));
    assert!(!on_same_server("@a:example.org", "nocolon"));
    assert!(is_on_server("@a:example.org", "example.org"));
    assert!(!is_on_server("@a:example.org", "example"));
    assert!(!is_on_server("example.org", "example.org"));
}

#[test]
fn a_table_answers_with_the_latest_entry_of_a_name() {
    let mut table: Table<i64> = Table::new();
    assert_eq!(table.get("a"), None);
    table.set("a".to_owned(), 1);
    table.set("b".to_owned(), 2);
    table.set("a".to_owned(), 3);
    assert_eq!(table.get("a"), Some(&3));
    assert_eq!(table.get("b"), Some(&2));
    assert_eq!(table.get("c"), None);
}

#[test]
fn power_levels_fall_back_to_their_defaults() {
    let mut users = Table::new();
    users.set("@mod:example.org".to_owned(), 50);
    let mut events = Table::new();
    events.set("m.room.redaction".to_owned(), 10);
    let levels = PowerLevels {
        ban: 50,
        events,
        events_default: 0,
        invite: 0,
        kick: 50,
        redact: 50,
        state_default: 50,
        users,
        users_default: 5,
    };
    assert_eq!(levels.for_user("@mod:example.org"), 50);
    assert_eq!(levels.for_user("@alice:example.org"), 5);
    assert_eq!(levels.for_message("m.room.redaction"), 10);
    assert_eq!(levels.for_message("m.room.message"), 0);
    assert!(levels.user_can_redact_event_of_other("@mod:example.org"));
    assert!(levels.user_can_redact_own_event("@mod:example.org"));
    assert!(!levels.user_can_redact_own_event("@alice:example.org"));
    assert!(!levels.user_can_redact_event_of_other("@alice:example.org"));
}
