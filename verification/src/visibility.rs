//! Who may see an event, and who may see a room's current state.

use vstd::prelude::*;
use crate::cache::{lemma_put, lemma_touch, CacheView, VisibilityCache};
use crate::content::{decode_history_visibility, history_visibility_in, HistoryVisibility, MembershipState};
use crate::facts::{Fact, Step};

verus! {

/// A lookup that a visibility decision may need.
#[derive(Clone, Copy, Debug, PartialEq, Eq, Structural)]
pub enum VisibilityQuery {
    /// The snapshot of room state in effect at the event.
    Snapshot,
    /// The content of the history-visibility event: in that snapshot for an
    /// event, in the current state for the room's state.
    HistoryVisibility,
    /// The subject's membership right now.
    CurrentMembership,
    /// The subject's membership as of the snapshot.
    MembershipAtSnapshot,
}

impl View for VisibilityQuery {
    type V = VisibilityQuery;

    open spec fn view(&self) -> VisibilityQuery {
        *self
    }
}

impl DeepView for MembershipState {
    type V = MembershipState;

    open spec fn deep_view(&self) -> MembershipState {
        *self
    }
}

/// The answers known so far to the lookups of one decision on an event.
#[derive(Clone, Debug, PartialEq, Eq)]
pub struct EventFacts {
    /// The snapshot in effect at the event: `Known(None)` where the event
    /// has none.
    pub snapshot: Fact<Option<u64>>,
    /// The content of the snapshot's history-visibility event: `Known(None)`
    /// where the snapshot has none.
    pub visibility: Fact<Option<String>>,
    /// The subject's membership right now.
    pub current_membership: Fact<MembershipState>,
    /// The subject's membership as of the snapshot.
    pub membership_at_snapshot: Fact<MembershipState>,
}

/// [`EventFacts`] as a mathematical value.
pub struct EventFactsView {
    pub snapshot: Fact<Option<u64>>,
    pub visibility: Fact<Option<Seq<char>>>,
    pub current_membership: Fact<MembershipState>,
    pub membership_at_snapshot: Fact<MembershipState>,
}

impl View for EventFacts {
    type V = EventFactsView;

    open spec fn view(&self) -> EventFactsView {
        EventFactsView {
            snapshot: self.snapshot,
            visibility: self.visibility.deep_view(),
            current_membership: self.current_membership,
            membership_at_snapshot: self.membership_at_snapshot,
        }
    }
}

impl EventFacts {
    /// Nothing looked up yet.
    pub fn new() -> (facts: Self)
        ensures
            facts@.snapshot is Pending,
            facts@.visibility is Pending,
            facts@.current_membership is Pending,
            facts@.membership_at_snapshot is Pending,
    {
        EventFacts {
            snapshot: Fact::Pending,
            visibility: Fact::Pending,
            current_membership: Fact::Pending,
            membership_at_snapshot: Fact::Pending,
        }
    }
}

/// The outcome of a visibility decision, or the lookup it waits for.
pub type VisibilityStep = Step<bool, VisibilityQuery>;

/// The history visibility in force: what the history-visibility content
/// decodes to, and "shared" where there is none or it does not decode.
pub open spec fn visibility_in_force(content: Option<Seq<char>>) -> HistoryVisibility {
    match content {
        Some(text) => match history_visibility_in(text) {
            Some(visibility) => visibility,
            None => HistoryVisibility::Shared,
        },
        None => HistoryVisibility::Shared,
    }
}

/// Whether a membership is at least an invitation.
pub open spec fn at_least_invited(membership: MembershipState) -> bool {
    membership == MembershipState::Invite || membership == MembershipState::Join
}

/// Whether the subject may see an event, from the state at that event:
///
/// * world-readable: always;
/// * shared: if the subject is joined now;
/// * invited: if the subject was invited or joined as of the snapshot;
/// * joined: if the subject was joined as of the snapshot;
/// * any other visibility: never.
pub open spec fn event_visibility(facts: EventFactsView) -> VisibilityStep {
    match facts.visibility {
        Fact::Pending => Step::Ask(VisibilityQuery::HistoryVisibility),
        Fact::Known(content) => match visibility_in_force(content) {
            HistoryVisibility::WorldReadable => Step::Done(true),
            HistoryVisibility::Shared => match facts.current_membership {
                Fact::Pending => Step::Ask(VisibilityQuery::CurrentMembership),
                Fact::Known(membership) => Step::Done(membership == MembershipState::Join),
            },
            HistoryVisibility::Invited => match facts.membership_at_snapshot {
                Fact::Pending => Step::Ask(VisibilityQuery::MembershipAtSnapshot),
                Fact::Known(membership) => Step::Done(at_least_invited(membership)),
            },
            HistoryVisibility::Joined => match facts.membership_at_snapshot {
                Fact::Pending => Step::Ask(VisibilityQuery::MembershipAtSnapshot),
                Fact::Known(membership) => Step::Done(membership == MembershipState::Join),
            },
            HistoryVisibility::Custom => Step::Done(false),
        },
    }
}

/// One round of deciding whether `subject` may see an event, with the memo
/// as it is left behind:
///
/// * an event without a snapshot is visible;
/// * a decision that the memo holds for the subject and the snapshot is
///   final, and counts as a use of the entry;
/// * otherwise the decision is made from the state at the event and
///   remembered.
pub open spec fn see_event(cache: CacheView, subject: Seq<char>, facts: EventFactsView) -> (
    VisibilityStep,
    CacheView,
) {
    match facts.snapshot {
        Fact::Pending => (Step::Ask(VisibilityQuery::Snapshot), cache),
        Fact::Known(None) => (Step::Done(true), cache),
        Fact::Known(Some(snapshot)) => match cache.get(subject, snapshot) {
            Some(visible) => (Step::Done(visible), cache.touch(subject, snapshot)),
            None => match event_visibility(facts) {
                Step::Done(visible) => (Step::Done(visible), cache.put(subject, snapshot, visible)),
                Step::Ask(question) => (Step::Ask(question), cache),
            },
        },
    }
}

fn decode_visibility_in_force(content: &Option<String>) -> (visibility: HistoryVisibility)
    ensures
        visibility == visibility_in_force(content.deep_view()),
{
    match content {
        Some(text) => match decode_history_visibility(text.as_str()) {
            Some(visibility) => visibility,
            None => HistoryVisibility::Shared,
        },
        None => HistoryVisibility::Shared,
    }
}

/// Whether the history visibility in force is a value that the engine does
/// not know. Such a value hides every event, and is worth a line in the log.
pub fn is_unknown_visibility(content: &Option<String>) -> (unknown: bool)
    ensures
        unknown == (visibility_in_force(content.deep_view()) == HistoryVisibility::Custom),
{
    match decode_visibility_in_force(content) {
        HistoryVisibility::Custom => true,
        _ => false,
    }
}

fn decide_event_visibility(facts: &EventFacts) -> (step: Step<bool, VisibilityQuery>)
    ensures
        step@ == event_visibility(facts@),
{
    let content = match &facts.visibility {
        Fact::Pending => {
            return Step::Ask(VisibilityQuery::HistoryVisibility);
        },
        Fact::Known(content) => content,
    };
    match decode_visibility_in_force(content) {
        HistoryVisibility::WorldReadable => Step::Done(true),
        HistoryVisibility::Shared => match facts.current_membership {
            Fact::Pending => Step::Ask(VisibilityQuery::CurrentMembership),
            Fact::Known(membership) => Step::Done(membership == MembershipState::Join),
        },
        HistoryVisibility::Invited => match facts.membership_at_snapshot {
            Fact::Pending => Step::Ask(VisibilityQuery::MembershipAtSnapshot),
            Fact::Known(membership) => Step::Done(
                membership == MembershipState::Invite || membership == MembershipState::Join,
            ),
        },
        HistoryVisibility::Joined => match facts.membership_at_snapshot {
            Fact::Pending => Step::Ask(VisibilityQuery::MembershipAtSnapshot),
            Fact::Known(membership) => Step::Done(membership == MembershipState::Join),
        },
        HistoryVisibility::Custom => Step::Done(false),
    }
}

/// Decides whether `user_id` may see an event, as far as the facts known so
/// far allow: the verdict, or the next lookup. Verdicts are read from and
/// written to `cache`, by subject and snapshot.
pub fn user_can_see_event(cache: &mut VisibilityCache, user_id: &str, facts: &EventFacts) -> (step: Step<
    bool,
    VisibilityQuery,
>)
    ensures
        old(cache)@.wf(),
        final(cache)@.wf(),
        (step@, final(cache)@) == see_event(old(cache)@, user_id@, facts@),
{
    proof {
        use_type_invariant(&*cache);
    }
    let snapshot = match facts.snapshot {
        Fact::Pending => {
            return Step::Ask(VisibilityQuery::Snapshot);
        },
        Fact::Known(None) => {
            return Step::Done(true);
        },
        Fact::Known(Some(snapshot)) => snapshot,
    };
    if let Some(visible) = cache.get(user_id, snapshot) {
        return Step::Done(visible);
    }
    match decide_event_visibility(facts) {
        Step::Done(visible) => {
            cache.insert(user_id, snapshot, visible);
            Step::Done(visible)
        },
        Step::Ask(question) => Step::Ask(question),
    }
}

/// The answers known so far to the lookups of one decision on a room's
/// current state.
#[derive(Clone, Debug, PartialEq, Eq)]
pub struct StateFacts {
    /// The subject's membership right now.
    pub current_membership: Fact<MembershipState>,
    /// The content of the room's current history-visibility event:
    /// `Known(None)` where the room has none.
    pub visibility: Fact<Option<String>>,
}

/// [`StateFacts`] as a mathematical value.
pub struct StateFactsView {
    pub current_membership: Fact<MembershipState>,
    pub visibility: Fact<Option<Seq<char>>>,
}

impl View for StateFacts {
    type V = StateFactsView;

    open spec fn view(&self) -> StateFactsView {
        StateFactsView {
            current_membership: self.current_membership,
            visibility: self.visibility.deep_view(),
        }
    }
}

impl StateFacts {
    /// Nothing looked up yet.
    pub fn new() -> (facts: Self)
        ensures
            facts@.current_membership is Pending,
            facts@.visibility is Pending,
    {
        StateFacts { current_membership: Fact::Pending, visibility: Fact::Pending }
    }
}

/// Whether the subject may see the room's current state. Only what holds
/// right now counts: a subject that is joined may; any other subject may if
/// the room is world-readable, or if history is visible to the invited and
/// the subject is invited.
pub open spec fn see_state(facts: StateFactsView) -> VisibilityStep {
    match facts.current_membership {
        Fact::Pending => Step::Ask(VisibilityQuery::CurrentMembership),
        Fact::Known(membership) => if membership == MembershipState::Join {
            Step::Done(true)
        } else {
            match facts.visibility {
                Fact::Pending => Step::Ask(VisibilityQuery::HistoryVisibility),
                Fact::Known(content) => match visibility_in_force(content) {
                    HistoryVisibility::WorldReadable => Step::Done(true),
                    HistoryVisibility::Invited => Step::Done(membership == MembershipState::Invite),
                    _ => Step::Done(false),
                },
            }
        },
    }
}

/// Decides whether the subject may see the room's current state, as far as
/// the facts known so far allow: the verdict, or the next lookup.
pub fn user_can_see_state_events(facts: &StateFacts) -> (step: Step<bool, VisibilityQuery>)
    ensures
        step@ == see_state(facts@),
{
    let membership = match facts.current_membership {
        Fact::Pending => {
            return Step::Ask(VisibilityQuery::CurrentMembership);
        },
        Fact::Known(membership) => membership,
    };
    if membership == MembershipState::Join {
        return Step::Done(true);
    }
    let content = match &facts.visibility {
        Fact::Pending => {
            return Step::Ask(VisibilityQuery::HistoryVisibility);
        },
        Fact::Known(content) => content,
    };
    match decode_visibility_in_force(content) {
        HistoryVisibility::WorldReadable => Step::Done(true),
        HistoryVisibility::Invited => Step::Done(membership == MembershipState::Invite),
        _ => Step::Done(false),
    }
}

/// Under world-readable history every subject may see the event, whatever
/// its membership is or was, and whether or not it is known.
pub proof fn lemma_world_readable_is_visible(facts: EventFactsView)
    requires
        facts.visibility matches Fact::Known(content) && visibility_in_force(content)
            == HistoryVisibility::WorldReadable,
    ensures
        event_visibility(facts) == Step::<bool, VisibilityQuery>::Done(true),
{
}

/// Under history visible to the joined, the subject may see the event exactly
/// if it was joined as of the snapshot: a subject that never joined may not.
pub proof fn lemma_joined_history_needs_a_join(facts: EventFactsView, membership: MembershipState)
    requires
        facts.visibility matches Fact::Known(content) && visibility_in_force(content)
            == HistoryVisibility::Joined,
        facts.membership_at_snapshot == Fact::Known(membership),
    ensures
        event_visibility(facts) == Step::<bool, VisibilityQuery>::Done(
            membership == MembershipState::Join,
        ),
{
}

/// Every decision in the memo for `snapshot` is "visible".
pub open spec fn memo_shows(cache: CacheView, snapshot: u64) -> bool {
    forall|i: int|
        0 <= i < cache.entries.len() && cache.entries[i].snapshot == snapshot
            ==> #[trigger] cache.entries[i].visible
}

/// After a round the memo holds only decisions that it held before, and the
/// verdict of this round under the subject and the snapshot asked about.
pub proof fn lemma_memo_gains_only_the_verdict(cache: CacheView, subject: Seq<char>, facts: EventFactsView, i: int)
    requires
        cache.wf(),
        0 <= i < see_event(cache, subject, facts).1.entries.len(),
    ensures
        cache.entries.contains(see_event(cache, subject, facts).1.entries[i]) || ({
            let entry = see_event(cache, subject, facts).1.entries[i];
            &&& facts.snapshot == Fact::Known(Some(entry.snapshot))
            &&& entry.subject == subject
            &&& see_event(cache, subject, facts).0 == Step::<bool, VisibilityQuery>::Done(
                entry.visible,
            )
        }),
{
    let after = see_event(cache, subject, facts).1;
    let entry = after.entries[i];
    if let Fact::Known(Some(snapshot)) = facts.snapshot {
        match cache.index_of(subject, snapshot) {
            Some(at) => {
                if i < after.entries.len() - 1 {
                    let from = if i < at { i } else { i + 1 };
                    assert(cache.entries[from] == entry);
                } else {
                    assert(cache.entries[at] == entry);
                }
            },
            None => {
                if let Step::Done(visible) = event_visibility(facts) {
                    if cache.capacity > 0 && i < after.entries.len() - 1 {
                        let shift: int = if cache.entries.len() >= cache.capacity { 1 } else { 0 };
                        assert(cache.entries[i + shift] == entry);
                    } else if cache.capacity == 0 {
                        assert(cache.entries[i] == entry);
                    }
                } else {
                    assert(cache.entries[i] == entry);
                }
            },
        }
    } else {
        assert(cache.entries[i] == entry);
    }
}

/// While the history visibility at a snapshot is world-readable, every
/// subject is told that it may see the events of that snapshot, whatever its
/// membership: a memo that shows the snapshot's events yields "visible" and
/// goes on showing them.
pub proof fn lemma_world_readable_is_seen_by_all(
    cache: CacheView,
    subject: Seq<char>,
    facts: EventFactsView,
    snapshot: u64,
)
    requires
        cache.wf(),
        facts.snapshot == Fact::Known(Some(snapshot)),
        facts.visibility matches Fact::Known(content) && visibility_in_force(content)
            == HistoryVisibility::WorldReadable,
        memo_shows(cache, snapshot),
    ensures
        see_event(cache, subject, facts).0 == Step::<bool, VisibilityQuery>::Done(true),
        memo_shows(see_event(cache, subject, facts).1, snapshot),
{
    let after = see_event(cache, subject, facts).1;
    if let Some(at) = cache.index_of(subject, snapshot) {
        assert(cache.entries[at].visible);
    }
    assert forall|i: int|
        0 <= i < after.entries.len() && after.entries[i].snapshot == snapshot implies #[trigger] after.entries[i].visible by {
        lemma_memo_gains_only_the_verdict(cache, subject, facts, i);
        if cache.entries.contains(after.entries[i]) {
            let j = choose|j: int| 0 <= j < cache.entries.len() && cache.entries[j] == after.entries[i];
            assert(cache.entries[j].visible);
        }
    }
}

/// A verdict on an event with a snapshot is remembered: as long as the memo
/// has room for one entry at least, the next round for the same subject and
/// snapshot yields the same verdict from the memo alone, whatever else is
/// known or has changed by then.
pub proof fn lemma_verdict_is_remembered(
    cache: CacheView,
    subject: Seq<char>,
    first: EventFactsView,
    later: EventFactsView,
)
    requires
        cache.wf(),
        cache.capacity > 0,
        first.snapshot matches Fact::Known(Some(_)),
        later.snapshot == first.snapshot,
        see_event(cache, subject, first).0 is Done,
    ensures
        see_event(see_event(cache, subject, first).1, subject, later).0 == see_event(
            cache,
            subject,
            first,
        ).0,
        see_event(cache, subject, first).1.wf(),
{
    let snapshot = first.snapshot->Known_0->Some_0;
    match cache.get(subject, snapshot) {
        Some(visible) => {
            lemma_touch(cache, subject, snapshot, subject, snapshot);
        },
        None => {
            let visible = event_visibility(first)->Done_0;
            lemma_put(cache, subject, snapshot, visible, subject, snapshot);
        },
    }
}

/// A round keeps the memo well-formed and within its bound.
pub proof fn lemma_memo_stays_bounded(cache: CacheView, subject: Seq<char>, facts: EventFactsView)
    requires
        cache.wf(),
    ensures
        see_event(cache, subject, facts).1.wf(),
        see_event(cache, subject, facts).1.capacity == cache.capacity,
        see_event(cache, subject, facts).1.entries.len() <= cache.capacity,
{
    if let Fact::Known(Some(snapshot)) = facts.snapshot {
        lemma_touch(cache, subject, snapshot, subject, snapshot);
        if let Step::Done(visible) = event_visibility(facts) {
            lemma_put(cache, subject, snapshot, visible, subject, snapshot);
        }
    }
}

/// Whether the facts hold the answer to a question about an event.
pub open spec fn event_facts_answer(facts: EventFactsView, question: VisibilityQuery) -> bool {
    match question {
        VisibilityQuery::Snapshot => facts.snapshot is Known,
        VisibilityQuery::HistoryVisibility => facts.visibility is Known,
        VisibilityQuery::CurrentMembership => facts.current_membership is Known,
        VisibilityQuery::MembershipAtSnapshot => facts.membership_at_snapshot is Known,
    }
}

/// A decision on an event asks only for what the facts do not hold yet, and
/// never for anything about a snapshot before the snapshot is known.
pub proof fn lemma_event_decision_asks_the_unknown(cache: CacheView, subject: Seq<char>, facts: EventFactsView)
    ensures
        see_event(cache, subject, facts).0 matches Step::Ask(question) ==> !event_facts_answer(
            facts,
            question,
        ) && (question != VisibilityQuery::Snapshot ==> facts.snapshot matches Fact::Known(Some(_))),
        see_event(cache, subject, facts).0 is Ask ==> see_event(cache, subject, facts).1 == cache,
{
}

/// A decision on a room's state asks only for what the facts do not hold
/// yet, and a verdict stands when more facts become known.
pub proof fn lemma_state_decision_asks_the_unknown(fewer: StateFactsView, more: StateFactsView)
    requires
        fewer.current_membership is Pending || more.current_membership == fewer.current_membership,
        fewer.visibility is Pending || more.visibility == fewer.visibility,
    ensures
        see_state(fewer) matches Step::Ask(question) ==> (match question {
            VisibilityQuery::CurrentMembership => fewer.current_membership is Pending,
            VisibilityQuery::HistoryVisibility => fewer.visibility is Pending,
            _ => false,
        }),
        see_state(fewer) is Done ==> see_state(more) == see_state(fewer),
{
}

} // verus!
