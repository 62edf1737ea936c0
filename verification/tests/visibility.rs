use room_authz::cache::VisibilityCache;
use room_authz::content::MembershipState;
use room_authz::facts::{Fact, Step};
use room_authz::visibility::{user_can_see_event, user_can_see_state_events, EventFacts, StateFacts, VisibilityQuery};

fn visibility(value: &str) -> Fact<Option<String>> {
    Fact::Known(Some(format!("{{\"history_visibility\":\"{value}\"}}")))
}

fn facts_at(snapshot: u64, value: &str) -> EventFacts {
    let mut facts = EventFacts::new();
    facts.snapshot = Fact::Known(Some(snapshot));
    facts.visibility = visibility(value);
    facts
}

const ALL_STATES: [MembershipState; 6] = [
    MembershipState::Ban,
    MembershipState::Invite,
    MembershipState::Join,
    MembershipState::Knock,
    MembershipState::Leave,
    MembershipState::Custom,
];

#[test]
fn event_visibility_asks_for_its_facts_in_order() {
    let mut cache = VisibilityCache::new(8);
    let mut facts = EventFacts::new();
    assert_eq!(user_can_see_event(&mut cache, "@alice:example.org", &facts), Step::Ask(VisibilityQuery::Snapshot));
    facts.snapshot = Fact::Known(Some(7));
    assert_eq!(user_can_see_event(&mut cache, "@alice:example.org", &facts), Step::Ask(VisibilityQuery::HistoryVisibility));
    facts.visibility = visibility("joined");
    assert_eq!(user_can_see_event(&mut cache, "@alice:example.org", &facts), Step::Ask(VisibilityQuery::MembershipAtSnapshot));
    assert_eq!(cache.len(), 0);
    facts.membership_at_snapshot = Fact::Known(MembershipState::Join);
    assert_eq!(user_can_see_event(&mut cache, "@alice:example.org", &facts), Step::Done(true));
    assert_eq!(cache.len(), 1);
}

#[test]
fn an_event_without_a_snapshot_is_visible() {
    let mut cache = VisibilityCache::new(8);
    let mut facts = EventFacts::new();
    facts.snapshot = Fact::Known(None);
    assert_eq!(user_can_see_event(&mut cache, "@alice:example.org", &facts), Step::Done(true));
    assert_eq!(cache.len(), 0);
}

#[test]
fn world_readable_history_is_visible_to_everyone() {
    let mut cache = VisibilityCache::new(8);
    for (i, subject) in ["@alice:example.org", "@bob:elsewhere.org", "@carol:example.org"].iter().enumerate() {
        let mut facts = facts_at(3, "world_readable");
        if i > 0 {
            facts.current_membership = Fact::Known(ALL_STATES[i]);
            facts.membership_at_snapshot = Fact::Known(MembershipState::Ban);
        }
        assert_eq!(user_can_see_event(&mut cache, subject, &facts), Step::Done(true));
    }
}

#[test]
fn joined_history_needs_a_join_at_the_snapshot() {
    for state in ALL_STATES {
        let mut cache = VisibilityCache::new(8);
        let mut facts = facts_at(3, "joined");
        facts.current_membership = Fact::Known(MembershipState::Join);
        facts.membership_at_snapshot = Fact::Known(state);
        let expected = state == MembershipState::Join;
        assert_eq!(user_can_see_event(&mut cache, "@alice:example.org", &facts), Step::Done(expected));
    }
}

#[test]
fn invited_history_needs_an_invitation_at_the_snapshot() {
    for state in ALL_STATES {
        let mut cache = VisibilityCache::new(8);
        let mut facts = facts_at(3, "invited");
        facts.membership_at_snapshot = Fact::Known(state);
        let expected = state == MembershipState::Join || state == MembershipState::Invite;
        assert_eq!(user_can_see_event(&mut cache, "@alice:example.org", &facts), Step::Done(expected));
    }
}

#[test]
fn shared_history_goes_by_the_membership_of_now() {
    for state in ALL_STATES {
        let mut cache = VisibilityCache::new(8);
        let mut facts = facts_at(3, "shared");
        assert_eq!(user_can_see_event(&mut cache, "@alice:example.org", &facts), Step::Ask(VisibilityQuery::CurrentMembership));
        facts.current_membership = Fact::Known(state);
        facts.membership_at_snapshot = Fact::Known(MembershipState::Join);
        let expected = state == MembershipState::Join;
        assert_eq!(user_can_see_event(&mut cache, "@alice:example.org", &facts), Step::Done(expected));
    }
}

#[test]
fn missing_or_broken_visibility_counts_as_shared() {
    for content in [None, Some("{}".to_owned()), Some("nonsense".to_owned())] {
        let mut cache = VisibilityCache::new(8);
        let mut facts = EventFacts::new();
        facts.snapshot = Fact::Known(Some(1));
        facts.visibility = Fact::Known(content);
        facts.current_membership = Fact::Known(MembershipState::Join);
        assert_eq!(user_can_see_event(&mut cache, "@alice:example.org", &facts), Step::Done(true));
        facts.current_membership = Fact::Known(MembershipState::Leave);
        assert_eq!(user_can_see_event(&mut cache, "@bob:example.org", &facts), Step::Done(false));
    }
}

#[test]
fn unknown_visibility_hides_the_event() {
    let mut cache = VisibilityCache::new(8);
    let mut facts = facts_at(3, "org.example.secret");
    facts.current_membership = Fact::Known(MembershipState::Join);
    facts.membership_at_snapshot = Fact::Known(MembershipState::Join);
    assert_eq!(user_can_see_event(&mut cache, "@alice:example.org", &facts), Step::Done(false));
}

#[test]
fn a_verdict_is_served_from_the_cache_without_lookups() {
    let mut cache = VisibilityCache::new(8);
    let mut facts = facts_at(9, "joined");
    facts.membership_at_snapshot = Fact::Known(MembershipState::Leave);
    assert_eq!(user_can_see_event(&mut cache, "@alice:example.org", &facts), Step::Done(false));

    let mut later = EventFacts::new();
    later.snapshot = Fact::Known(Some(9));
    assert_eq!(user_can_see_event(&mut cache, "@alice:example.org", &later), Step::Done(false));

    later.visibility = visibility("world_readable");
    assert_eq!(user_can_see_event(&mut cache, "@alice:example.org", &later), Step::Done(false));

    assert_eq!(user_can_see_event(&mut cache, "@bob:example.org", &later), Step::Done(true));
    later.snapshot = Fact::Known(Some(10));
    assert_eq!(user_can_see_event(&mut cache, "@alice:example.org", &later), Step::Done(true));
    assert_eq!(cache.len(), 3);
}

#[test]
fn a_cache_without_room_remembers_nothing() {
    let mut cache = VisibilityCache::new(0);
    let mut facts = facts_at(9, "joined");
    facts.membership_at_snapshot = Fact::Known(MembershipState::Join);
    assert_eq!(user_can_see_event(&mut cache, "@alice:example.org", &facts), Step::Done(true));
    assert_eq!(cache.len(), 0);
    let mut later = EventFacts::new();
    later.snapshot = Fact::Known(Some(9));
    assert_eq!(user_can_see_event(&mut cache, "@alice:example.org", &later), Step::Ask(VisibilityQuery::HistoryVisibility));
}

#[test]
fn the_cache_evicts_the_least_recently_used_entry() {
    let mut cache = VisibilityCache::new(2);
    assert_eq!(cache.capacity(), 2);
    cache.insert("@a:example.org", 1, true);
    cache.insert("@b:example.org", 1, false);
    assert_eq!(cache.get("@a:example.org", 1), Some(true));
    cache.insert("@c:example.org", 1, true);
    assert_eq!(cache.len(), 2);
    assert_eq!(cache.get("@b:example.org", 1), None);
    assert_eq!(cache.get("@a:example.org", 1), Some(true));
    assert_eq!(cache.get("@c:example.org", 1), Some(true));
    assert_eq!(cache.get("@a:example.org", 2), None);
}

#[test]
fn the_cache_replaces_the_decision_of_a_known_key() {
    let mut cache = VisibilityCache::new(2);
    cache.insert("@a:example.org", 1, true);
    cache.insert("@b:example.org", 1, true);
    cache.insert("@a:example.org", 1, false);
    assert_eq!(cache.len(), 2);
    assert_eq!(cache.get("@a:example.org", 1), Some(false));
    assert_eq!(cache.get("@b:example.org", 1), Some(true));
}

#[test]
fn state_visibility_goes_by_what_holds_now() {
    let mut facts = StateFacts::new();
    assert_eq!(user_can_see_state_events(&facts), Step::Ask(VisibilityQuery::CurrentMembership));
    facts.current_membership = Fact::Known(MembershipState::Join);
    assert_eq!(user_can_see_state_events(&facts), Step::Done(true));
    facts.current_membership = Fact::Known(MembershipState::Leave);
    assert_eq!(user_can_see_state_events(&facts), Step::Ask(VisibilityQuery::HistoryVisibility));

    for state in ALL_STATES {
        if state == MembershipState::Join {
            continue;
        }
        for (value, expected) in [
            ("world_readable", true),
            ("shared", false),
            ("joined", false),
            ("invited", state == MembershipState::Invite),
            ("org.example.secret", false),
        ] {
            let facts = StateFacts { current_membership: Fact::Known(state), visibility: visibility(value) };
            assert_eq!(user_can_see_state_events(&facts), Step::Done(expected), "{state:?} {value}");
        }
        let absent = StateFacts { current_membership: Fact::Known(state), visibility: Fact::Known(None) };
        assert_eq!(user_can_see_state_events(&absent), Step::Done(false));
    }
}
