use room_authz::error::{EngineError, Violation};
use room_authz::facts::{Fact, Step};
use room_authz::redaction::{user_can_redact, RedactionFacts, RedactionQuery, TargetEvent};

fn target(kind: &str, sender: &str) -> Fact<Option<TargetEvent>> {
    Fact::Known(Some(TargetEvent { kind: kind.to_owned(), sender: sender.to_owned() }))
}

fn levels(content: &str) -> Fact<Option<String>> {
    Fact::Known(Some(content.to_owned()))
}

const LEVELS: &str = "{\"users\":{\"@admin:example.org\":100,\"@mod:example.org\":50,\"@muted:example.org\":-1},\"users_default\":0,\"redact\":50,\"events_default\":0}";

#[test]
fn redaction_asks_for_its_facts_in_order() {
    let mut facts = RedactionFacts::new();
    assert_eq!(user_can_redact("@alice:example.org", false, &facts), Step::Ask(RedactionQuery::TargetEvent));
    facts.target = target("m.room.message", "@bob:example.org");
    assert_eq!(user_can_redact("@alice:example.org", false, &facts), Step::Ask(RedactionQuery::PowerLevels));
    facts.power_levels = Fact::Known(None);
    assert_eq!(user_can_redact("@alice:example.org", false, &facts), Step::Ask(RedactionQuery::RoomCreate));
    facts.room_creator = Fact::Known(Some("@alice:example.org".to_owned()));
    assert_eq!(user_can_redact("@alice:example.org", false, &facts), Step::Done(Ok(true)));
}

#[test]
fn room_create_is_never_redacted() {
    for subject in ["@admin:example.org", "@mod:example.org", "@nobody:example.org"] {
        for federation in [false, true] {
            let mut facts = RedactionFacts::new();
            facts.target = target("m.room.create", "@admin:example.org");
            let expected = Step::Done(Err(EngineError::PolicyViolation(Violation::RedactCreate)));
            assert_eq!(user_can_redact(subject, federation, &facts), expected);
            facts.power_levels = levels(LEVELS);
            facts.room_creator = Fact::Known(Some(subject.to_owned()));
            assert_eq!(user_can_redact(subject, federation, &facts), expected);
        }
    }
}

#[test]
fn server_acl_is_never_redacted() {
    let mut facts = RedactionFacts::new();
    facts.target = target("m.room.server_acl", "@admin:example.org");
    facts.power_levels = levels(LEVELS);
    assert_eq!(
        user_can_redact("@admin:example.org", false, &facts),
        Step::Done(Err(EngineError::PolicyViolation(Violation::RedactServerAcl)))
    );
}

#[test]
fn power_levels_decide_where_the_room_has_them() {
    let mut facts = RedactionFacts::new();
    facts.target = target("m.room.message", "@bob:example.org");
    facts.power_levels = levels(LEVELS);
    assert_eq!(user_can_redact("@admin:example.org", false, &facts), Step::Done(Ok(true)));
    assert_eq!(user_can_redact("@mod:example.org", false, &facts), Step::Done(Ok(true)));
    assert_eq!(user_can_redact("@alice:example.org", false, &facts), Step::Done(Ok(false)));
    assert_eq!(user_can_redact("@bob:example.org", false, &facts), Step::Done(Ok(true)));
    assert_eq!(user_can_redact("@muted:example.org", false, &facts), Step::Done(Ok(false)));
}

#[test]
fn a_subject_below_the_send_level_cannot_redact_its_own_event() {
    let mut facts = RedactionFacts::new();
    facts.target = target("m.room.message", "@muted:example.org");
    facts.power_levels = levels(LEVELS);
    assert_eq!(user_can_redact("@muted:example.org", false, &facts), Step::Done(Ok(false)));
}

#[test]
fn the_redaction_send_level_gates_both_rights() {
    let content = "{\"users\":{\"@mod:example.org\":50},\"events\":{\"m.room.redaction\":75},\"redact\":50}";
    let mut facts = RedactionFacts::new();
    facts.target = target("m.room.message", "@mod:example.org");
    facts.power_levels = levels(content);
    assert_eq!(user_can_redact("@mod:example.org", false, &facts), Step::Done(Ok(false)));
}

#[test]
fn default_redact_level_is_fifty() {
    let mut facts = RedactionFacts::new();
    facts.target = target("m.room.message", "@bob:example.org");
    facts.power_levels = levels("{\"users\":{\"@a:example.org\":49,\"@b:example.org\":50}}");
    assert_eq!(user_can_redact("@a:example.org", false, &facts), Step::Done(Ok(false)));
    assert_eq!(user_can_redact("@b:example.org", false, &facts), Step::Done(Ok(true)));
}

#[test]
fn federation_scope_accepts_the_senders_server() {
    let mut facts = RedactionFacts::new();
    facts.target = target("m.room.message", "@bob:remote.org");
    facts.power_levels = levels(LEVELS);
    assert_eq!(user_can_redact("@carol:remote.org", false, &facts), Step::Done(Ok(false)));
    assert_eq!(user_can_redact("@carol:remote.org", true, &facts), Step::Done(Ok(true)));
    assert_eq!(user_can_redact("@carol:other.org", true, &facts), Step::Done(Ok(false)));
}

#[test]
fn a_missing_target_is_nobodys_own() {
    let mut facts = RedactionFacts::new();
    facts.target = Fact::Known(None);
    facts.power_levels = levels(LEVELS);
    assert_eq!(user_can_redact("@alice:example.org", false, &facts), Step::Done(Ok(false)));
    assert_eq!(user_can_redact("@alice:example.org", true, &facts), Step::Done(Ok(false)));
    assert_eq!(user_can_redact("@mod:example.org", false, &facts), Step::Done(Ok(true)));
}

#[test]
fn without_power_levels_the_creator_decides() {
    let mut facts = RedactionFacts::new();
    facts.target = target("m.room.message", "@bob:example.org");
    facts.power_levels = Fact::Known(None);
    facts.room_creator = Fact::Known(Some("@alice:example.org".to_owned()));
    assert_eq!(user_can_redact("@alice:example.org", false, &facts), Step::Done(Ok(true)));
    assert_eq!(user_can_redact("@bob:example.org", false, &facts), Step::Done(Ok(true)));
    assert_eq!(user_can_redact("@carol:example.org", false, &facts), Step::Done(Ok(false)));
    assert_eq!(user_can_redact("@carol:example.org", true, &facts), Step::Done(Ok(false)));
}

#[test]
fn power_levels_that_do_not_decode_count_as_absent() {
    let mut facts = RedactionFacts::new();
    facts.target = target("m.room.message", "@bob:example.org");
    facts.power_levels = levels("{\"users\":5}");
    assert_eq!(user_can_redact("@alice:example.org", false, &facts), Step::Ask(RedactionQuery::RoomCreate));
}

#[test]
fn a_room_without_levels_and_creation_is_inconsistent() {
    let mut facts = RedactionFacts::new();
    facts.target = target("m.room.message", "@bob:example.org");
    facts.power_levels = Fact::Known(None);
    facts.room_creator = Fact::Known(None);
    assert_eq!(user_can_redact("@bob:example.org", false, &facts), Step::Done(Err(EngineError::StorageInconsistency)));
}
