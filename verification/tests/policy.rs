use room_authz::error::{Defect, EngineError, Violation};
use room_authz::facts::{Fact, Step};
use room_authz::policy::{allowed_to_send_state_event, PolicyFacts, PolicyQuery, ServerConfig};

fn config(allow_encryption: bool) -> ServerConfig {
    ServerConfig { server_name: "example.org".to_owned(), allow_encryption }
}

fn rejected(rule: Violation) -> Step<Result<(), EngineError>, PolicyQuery> {
    Step::Done(Err(EngineError::PolicyViolation(rule)))
}

fn malformed(defect: Defect) -> Step<Result<(), EngineError>, PolicyQuery> {
    Step::Done(Err(EngineError::Malformed(defect)))
}

const ALLOWED: Step<Result<(), EngineError>, PolicyQuery> = Step::Done(Ok(()));

const ROOM: &str = "!room:example.org";

#[test]
fn create_event_is_always_rejected() {
    for allow in [false, true] {
        let step = allowed_to_send_state_event(
            &config(allow),
            &PolicyFacts::new(),
            ROOM,
            "m.room.create",
            "",
            "{\"creator\":\"@alice:example.org\"}",
        );
        assert_eq!(step, rejected(Violation::CreateIsImmutable));
    }
}

#[test]
fn encryption_needs_the_server_flag() {
    let content = "{\"algorithm\":\"m.megolm.v1.aes-sha2\"}";
    let off = allowed_to_send_state_event(&config(false), &PolicyFacts::new(), ROOM, "m.room.encryption", "", content);
    assert_eq!(off, rejected(Violation::EncryptionDisabled));
    let on = allowed_to_send_state_event(&config(true), &PolicyFacts::new(), ROOM, "m.room.encryption", "", content);
    assert_eq!(on, ALLOWED);
}

#[test]
fn public_join_rule_is_kept_out_of_the_admin_room() {
    let content = "{\"join_rule\":\"public\"}";
    let mut facts = PolicyFacts::new();
    let first = allowed_to_send_state_event(&config(true), &facts, ROOM, "m.room.join_rules", "", content);
    assert_eq!(first, Step::Ask(PolicyQuery::AdminRoom));

    facts.admin_room = Fact::Known(Some(ROOM.to_owned()));
    let in_admin_room = allowed_to_send_state_event(&config(true), &facts, ROOM, "m.room.join_rules", "", content);
    assert_eq!(in_admin_room, rejected(Violation::AdminRoomPublic));

    let elsewhere = allowed_to_send_state_event(&config(true), &facts, "!other:example.org", "m.room.join_rules", "", content);
    assert_eq!(elsewhere, ALLOWED);

    facts.admin_room = Fact::Known(None);
    let no_admin_room = allowed_to_send_state_event(&config(true), &facts, ROOM, "m.room.join_rules", "", content);
    assert_eq!(no_admin_room, ALLOWED);
}

#[test]
fn other_join_rules_pass_without_a_lookup() {
    let facts = PolicyFacts::new();
    for content in ["{\"join_rule\":\"invite\"}", "{\"join_rule\":\"knock\"}", "{\"join_rule\":\"made.up\"}", "not json", "{}"] {
        let step = allowed_to_send_state_event(&config(true), &facts, ROOM, "m.room.join_rules", "", content);
        assert_eq!(step, ALLOWED, "{content}");
    }
}

#[test]
fn world_readable_history_is_kept_out_of_the_admin_room() {
    let content = "{\"history_visibility\":\"world_readable\"}";
    let mut facts = PolicyFacts::new();
    let first = allowed_to_send_state_event(&config(true), &facts, ROOM, "m.room.history_visibility", "", content);
    assert_eq!(first, Step::Ask(PolicyQuery::AdminRoom));

    facts.admin_room = Fact::Known(Some(ROOM.to_owned()));
    let in_admin_room = allowed_to_send_state_event(&config(true), &facts, ROOM, "m.room.history_visibility", "", content);
    assert_eq!(in_admin_room, rejected(Violation::AdminRoomWorldReadable));

    let shared = allowed_to_send_state_event(&config(true), &facts, ROOM, "m.room.history_visibility", "", "{\"history_visibility\":\"shared\"}");
    assert_eq!(shared, ALLOWED);

    let elsewhere = allowed_to_send_state_event(&config(true), &facts, "!other:example.org", "m.room.history_visibility", "", content);
    assert_eq!(elsewhere, ALLOWED);
}

#[test]
fn canonical_alias_must_already_resolve_to_the_room() {
    let content = "{\"alias\":\"#main:example.org\",\"alt_aliases\":[\"#alt:example.org\"]}";
    let mut facts = PolicyFacts::new();

    let first = allowed_to_send_state_event(&config(true), &facts, ROOM, "m.room.canonical_alias", "", content);
    assert_eq!(first, Step::Ask(PolicyQuery::AliasTarget("#alt:example.org".to_owned())));

    facts.alias_targets.set("#alt:example.org".to_owned(), Some(ROOM.to_owned()));
    let second = allowed_to_send_state_event(&config(true), &facts, ROOM, "m.room.canonical_alias", "", content);
    assert_eq!(second, Step::Ask(PolicyQuery::AliasTarget("#main:example.org".to_owned())));

    let mut elsewhere = facts.clone();
    elsewhere.alias_targets.set("#main:example.org".to_owned(), Some("!other:example.org".to_owned()));
    let step = allowed_to_send_state_event(&config(true), &elsewhere, ROOM, "m.room.canonical_alias", "", content);
    assert_eq!(step, rejected(Violation::AliasNotResolving));

    let mut nowhere = facts.clone();
    nowhere.alias_targets.set("#main:example.org".to_owned(), None);
    let step = allowed_to_send_state_event(&config(true), &nowhere, ROOM, "m.room.canonical_alias", "", content);
    assert_eq!(step, rejected(Violation::AliasNotResolving));

    facts.alias_targets.set("#main:example.org".to_owned(), Some(ROOM.to_owned()));
    let step = allowed_to_send_state_event(&config(true), &facts, ROOM, "m.room.canonical_alias", "", content);
    assert_eq!(step, ALLOWED);
}

#[test]
fn canonical_alias_of_another_server_is_rejected_without_a_lookup() {
    let content = "{\"alias\":\"#main:elsewhere.org\"}";
    let step = allowed_to_send_state_event(&config(true), &PolicyFacts::new(), ROOM, "m.room.canonical_alias", "", content);
    assert_eq!(step, rejected(Violation::AliasNotLocal));
}

#[test]
fn canonical_alias_content_that_does_not_decode_passes() {
    for content in ["{\"alias\":\"not an alias\"}", "[]", "", "{\"alt_aliases\":\"#x:example.org\"}"] {
        let step = allowed_to_send_state_event(&config(true), &PolicyFacts::new(), ROOM, "m.room.canonical_alias", "", content);
        assert_eq!(step, ALLOWED, "{content}");
    }
    let empty = allowed_to_send_state_event(&config(true), &PolicyFacts::new(), ROOM, "m.room.canonical_alias", "", "{}");
    assert_eq!(empty, ALLOWED);
    let empty_alias = allowed_to_send_state_event(&config(true), &PolicyFacts::new(), ROOM, "m.room.canonical_alias", "", "{\"alias\":\"\"}");
    assert_eq!(empty_alias, ALLOWED);
}

#[test]
fn membership_content_must_decode() {
    for content in ["{}", "not json", "{\"membership\":5}", "{\"membership\":\"join\",\"join_authorised_via_users_server\":\"nobody\"}"] {
        let step = allowed_to_send_state_event(&config(true), &PolicyFacts::new(), ROOM, "m.room.member", "@bob:example.org", content);
        assert_eq!(step, malformed(Defect::MembershipContent), "{content}");
    }
}

#[test]
fn membership_state_key_must_be_a_user_id() {
    for state_key in ["", "bob", "@bob", "bob:example.org", "!room:example.org"] {
        let step = allowed_to_send_state_event(&config(true), &PolicyFacts::new(), ROOM, "m.room.member", state_key, "{\"membership\":\"join\"}");
        assert_eq!(step, malformed(Defect::MembershipStateKey), "{state_key}");
    }
}

#[test]
fn plain_membership_passes() {
    for content in ["{\"membership\":\"join\"}", "{\"membership\":\"leave\"}", "{\"membership\":\"invite\"}", "{\"membership\":\"ban\"}", "{\"membership\":\"knock\"}", "{\"membership\":\"made.up\"}"] {
        let step = allowed_to_send_state_event(&config(true), &PolicyFacts::new(), ROOM, "m.room.member", "@bob:example.org", content);
        assert_eq!(step, ALLOWED, "{content}");
    }
}

#[test]
fn join_authorisation_is_only_for_joins() {
    let content = "{\"membership\":\"invite\",\"join_authorised_via_users_server\":\"@alice:example.org\"}";
    let step = allowed_to_send_state_event(&config(true), &PolicyFacts::new(), ROOM, "m.room.member", "@bob:example.org", content);
    assert_eq!(step, malformed(Defect::AuthorizerOnNonJoin));
}

#[test]
fn authorised_join_walks_through_its_lookups() {
    let content = "{\"membership\":\"join\",\"join_authorised_via_users_server\":\"@alice:example.org\"}";
    let check = |facts: &PolicyFacts| allowed_to_send_state_event(&config(true), facts, ROOM, "m.room.member", "@bob:elsewhere.org", content);

    let mut facts = PolicyFacts::new();
    assert_eq!(check(&facts), Step::Ask(PolicyQuery::Joined("@bob:elsewhere.org".to_owned())));

    let mut already = facts.clone();
    already.joined.set("@bob:elsewhere.org".to_owned(), true);
    assert_eq!(check(&already), rejected(Violation::AlreadyJoined));

    facts.joined.set("@bob:elsewhere.org".to_owned(), false);
    assert_eq!(check(&facts), Step::Ask(PolicyQuery::Joined("@alice:example.org".to_owned())));

    let mut absent = facts.clone();
    absent.joined.set("@alice:example.org".to_owned(), false);
    assert_eq!(check(&absent), rejected(Violation::AuthorizerNotJoined));

    facts.joined.set("@alice:example.org".to_owned(), true);
    assert_eq!(check(&facts), ALLOWED);
}

#[test]
fn authorising_user_must_be_local() {
    let content = "{\"membership\":\"join\",\"join_authorised_via_users_server\":\"@alice:elsewhere.org\"}";
    let mut facts = PolicyFacts::new();
    facts.joined.set("@bob:example.org".to_owned(), false);
    let step = allowed_to_send_state_event(&config(true), &facts, ROOM, "m.room.member", "@bob:example.org", content);
    assert_eq!(step, rejected(Violation::AuthorizerNotLocal));
}

#[test]
fn other_event_types_pass() {
    for event_type in ["m.room.name", "m.room.topic", "m.room.power_levels", "m.room.server_acl", "org.example.custom", ""] {
        let step = allowed_to_send_state_event(&config(false), &PolicyFacts::new(), ROOM, event_type, "", "{}");
        assert_eq!(step, ALLOWED, "{event_type}");
    }
}
