//! Who may redact an event.

use vstd::prelude::*;
use crate::content::{classify, kind_of, EventKind};
use crate::error::{EngineError, Violation};
use crate::facts::{Fact, Step};
use crate::power::{decode_power_levels, power_levels_in, PowerLevels, PowerLevelsView};
use crate::text::{on_same_server, same_server, str_eq};

verus! {

/// A lookup that a redaction decision may need.
#[derive(Clone, Copy, Debug, PartialEq, Eq, Structural)]
pub enum RedactionQuery {
    /// The event to be redacted.
    TargetEvent,
    /// The content of the room's power-levels event.
    PowerLevels,
    /// The sender of the room's create event.
    RoomCreate,
}

impl View for RedactionQuery {
    type V = RedactionQuery;

    open spec fn view(&self) -> RedactionQuery {
        *self
    }
}

/// What a redaction decision reads of the event to be redacted.
#[derive(Clone, Debug, PartialEq, Eq)]
pub struct TargetEvent {
    /// The event's type.
    pub kind: String,
    /// The subject that sent it.
    pub sender: String,
}

/// [`TargetEvent`] as a mathematical value.
pub struct TargetEventView {
    pub kind: Seq<char>,
    pub sender: Seq<char>,
}

impl DeepView for TargetEvent {
    type V = TargetEventView;

    open spec fn deep_view(&self) -> TargetEventView {
        TargetEventView { kind: self.kind@, sender: self.sender@ }
    }
}

/// The answers known so far to the lookups of one redaction decision.
#[derive(Clone, Debug, PartialEq, Eq)]
pub struct RedactionFacts {
    /// The event to be redacted: `Known(None)` where it cannot be found.
    pub target: Fact<Option<TargetEvent>>,
    /// The content of the power-levels event: `Known(None)` where the room
    /// has none.
    pub power_levels: Fact<Option<String>>,
    /// The sender of the create event: `Known(None)` where the room has none.
    pub room_creator: Fact<Option<String>>,
}

/// [`RedactionFacts`] as a mathematical value.
pub struct RedactionFactsView {
    pub target: Fact<Option<TargetEventView>>,
    pub power_levels: Fact<Option<Seq<char>>>,
    pub room_creator: Fact<Option<Seq<char>>>,
}

impl View for RedactionFacts {
    type V = RedactionFactsView;

    open spec fn view(&self) -> RedactionFactsView {
        RedactionFactsView {
            target: self.target.deep_view(),
            power_levels: self.power_levels.deep_view(),
            room_creator: self.room_creator.deep_view(),
        }
    }
}

impl RedactionFacts {
    /// Nothing looked up yet.
    pub fn new() -> (facts: Self)
        ensures
            facts@.target is Pending,
            facts@.power_levels is Pending,
            facts@.room_creator is Pending,
    {
        RedactionFacts { target: Fact::Pending, power_levels: Fact::Pending, room_creator: Fact::Pending }
    }
}

/// The outcome of a redaction decision, or the lookup it waits for.
pub type RedactionStep = Step<Result<bool, EngineError>, RedactionQuery>;

/// Whether the target counts as the subject's own event: sent by the subject
/// itself or, in federation scope, by any subject of the same server. An
/// event that cannot be found is nobody's own.
pub open spec fn is_own_event(target: Option<TargetEventView>, subject: Seq<char>, federation: bool) -> bool {
    match target {
        Some(event) => if federation {
            same_server(event.sender, subject)
        } else {
            event.sender == subject
        },
        None => false,
    }
}

/// The rule where the room has power levels: the subject may redact the
/// events of others, or may redact its own and the target is its own.
pub open spec fn allowed_by_levels(
    levels: PowerLevelsView,
    target: Option<TargetEventView>,
    subject: Seq<char>,
    federation: bool,
) -> bool {
    levels.can_redact_others(subject) || (levels.can_redact_own(subject) && is_own_event(
        target,
        subject,
        federation,
    ))
}

/// The rule where the room has no power levels: the subject created the room,
/// or sent the target itself.
pub open spec fn allowed_by_creation(creator: Seq<char>, target: Option<TargetEventView>, subject: Seq<char>) -> bool {
    creator == subject || (target matches Some(event) && event.sender == subject)
}

/// The power levels in force: those that the room's power-levels event
/// decodes to, if it has one and it decodes.
pub open spec fn levels_in_force(content: Option<Seq<char>>) -> Option<PowerLevelsView> {
    match content {
        Some(text) => power_levels_in(text),
        None => None,
    }
}

/// Whether `subject` may redact the target event:
///
/// * never the room-create event nor the server access-control event;
/// * by the room's power levels, where it has them;
/// * else by who created the room;
/// * and where the room has neither, its storage is inconsistent.
pub open spec fn redaction_step(subject: Seq<char>, federation: bool, facts: RedactionFactsView) -> RedactionStep {
    match facts.target {
        Fact::Pending => Step::Ask(RedactionQuery::TargetEvent),
        Fact::Known(target) => if target matches Some(event) && kind_of(event.kind)
            == EventKind::RoomCreate {
            Step::Done(Err(EngineError::PolicyViolation(Violation::RedactCreate)))
        } else if target matches Some(event) && kind_of(event.kind) == EventKind::RoomServerAcl {
            Step::Done(Err(EngineError::PolicyViolation(Violation::RedactServerAcl)))
        } else {
            match facts.power_levels {
                Fact::Pending => Step::Ask(RedactionQuery::PowerLevels),
                Fact::Known(content) => match levels_in_force(content) {
                    Some(levels) => Step::Done(
                        Ok(allowed_by_levels(levels, target, subject, federation)),
                    ),
                    None => match facts.room_creator {
                        Fact::Pending => Step::Ask(RedactionQuery::RoomCreate),
                        Fact::Known(Some(creator)) => Step::Done(
                            Ok(allowed_by_creation(creator, target, subject)),
                        ),
                        Fact::Known(None) => Step::Done(Err(EngineError::StorageInconsistency)),
                    },
                },
            }
        },
    }
}

fn sent_by(target: &Option<TargetEvent>, subject: &str) -> (own: bool)
    ensures
        own == (target.deep_view() matches Some(event) && event.sender == subject@),
{
    match target {
        Some(event) => str_eq(event.sender.as_str(), subject),
        None => false,
    }
}

fn own_event(target: &Option<TargetEvent>, subject: &str, federation: bool) -> (own: bool)
    ensures
        own == is_own_event(target.deep_view(), subject@, federation),
{
    match target {
        Some(event) => {
            if federation {
                on_same_server(event.sender.as_str(), subject)
            } else {
                str_eq(event.sender.as_str(), subject)
            }
        },
        None => false,
    }
}

fn decode_levels_in_force(content: &Option<String>) -> (levels: Option<PowerLevels>)
    ensures
        match levels {
            Some(decoded) => levels_in_force(content.deep_view()) == Some(decoded@),
            None => levels_in_force(content.deep_view()) is None,
        },
{
    match content {
        Some(text) => decode_power_levels(text.as_str()),
        None => None,
    }
}

/// Decides whether `sender` may redact the target event, as far as the facts
/// known so far allow: the verdict, or the next lookup. With `federation`
/// set, an event of any subject of the sender's server counts as the sender's
/// own.
pub fn user_can_redact(sender: &str, federation: bool, facts: &RedactionFacts) -> (step: Step<
    Result<bool, EngineError>,
    RedactionQuery,
>)
    ensures
        step@ == redaction_step(sender@, federation, facts@),
{
    let target = match &facts.target {
        Fact::Pending => {
            return Step::Ask(RedactionQuery::TargetEvent);
        },
        Fact::Known(target) => target,
    };
    if let Some(event) = target {
        match classify(event.kind.as_str()) {
            EventKind::RoomCreate => {
                return Step::Done(Err(EngineError::PolicyViolation(Violation::RedactCreate)));
            },
            EventKind::RoomServerAcl => {
                return Step::Done(Err(EngineError::PolicyViolation(Violation::RedactServerAcl)));
            },
            _ => {},
        }
    }
    let content = match &facts.power_levels {
        Fact::Pending => {
            return Step::Ask(RedactionQuery::PowerLevels);
        },
        Fact::Known(content) => content,
    };
    if let Some(levels) = decode_levels_in_force(content) {
        let allowed = levels.user_can_redact_event_of_other(sender) || (
        levels.user_can_redact_own_event(sender) && own_event(target, sender, federation));
        return Step::Done(Ok(allowed));
    }
    match &facts.room_creator {
        Fact::Pending => Step::Ask(RedactionQuery::RoomCreate),
        Fact::Known(Some(creator)) => {
            let allowed = str_eq(creator.as_str(), sender) || sent_by(target, sender);
            Step::Done(Ok(allowed))
        },
        Fact::Known(None) => Step::Done(Err(EngineError::StorageInconsistency)),
    }
}

/// The room-create event cannot be redacted: the attempt fails as a policy
/// violation whoever asks, in or out of federation scope, whatever the
/// room's power levels and whoever created the room.
pub proof fn lemma_create_is_never_redacted(subject: Seq<char>, federation: bool, facts: RedactionFactsView)
    requires
        facts.target matches Fact::Known(Some(event)) && kind_of(event.kind) == EventKind::RoomCreate,
    ensures
        redaction_step(subject, federation, facts) == Step::<Result<bool, EngineError>, RedactionQuery>::Done(
            Err(EngineError::PolicyViolation(Violation::RedactCreate)),
        ),
{
}

/// The server access-control event cannot be redacted either.
pub proof fn lemma_server_acl_is_never_redacted(subject: Seq<char>, federation: bool, facts: RedactionFactsView)
    requires
        facts.target matches Fact::Known(Some(event)) && kind_of(event.kind)
            == EventKind::RoomServerAcl,
    ensures
        redaction_step(subject, federation, facts) == Step::<Result<bool, EngineError>, RedactionQuery>::Done(
            Err(EngineError::PolicyViolation(Violation::RedactServerAcl)),
        ),
{
}

/// Whether the facts hold the answer to a question.
pub open spec fn answers(facts: RedactionFactsView, question: RedactionQuery) -> bool {
    match question {
        RedactionQuery::TargetEvent => facts.target is Known,
        RedactionQuery::PowerLevels => facts.power_levels is Known,
        RedactionQuery::RoomCreate => facts.room_creator is Known,
    }
}

/// Facts `more` hold every answer that `fewer` holds.
pub open spec fn extends(more: RedactionFactsView, fewer: RedactionFactsView) -> bool {
    &&& fewer.target is Pending || more.target == fewer.target
    &&& fewer.power_levels is Pending || more.power_levels == fewer.power_levels
    &&& fewer.room_creator is Pending || more.room_creator == fewer.room_creator
}

/// A redaction decision asks only for what the facts do not hold yet, and a
/// verdict stands when more facts become known.
pub proof fn lemma_redaction_asks_the_unknown(
    subject: Seq<char>,
    federation: bool,
    fewer: RedactionFactsView,
    more: RedactionFactsView,
)
    requires
        extends(more, fewer),
    ensures
        redaction_step(subject, federation, fewer) matches Step::Ask(question) ==> !answers(
            fewer,
            question,
        ),
        redaction_step(subject, federation, fewer) is Done ==> redaction_step(
            subject,
            federation,
            more,
        ) == redaction_step(subject, federation, fewer),
{
}

/// Without power levels and without a create event the decision fails as a
/// storage inconsistency: it never turns into a plain "no".
pub proof fn lemma_missing_singletons_are_fatal(subject: Seq<char>, federation: bool, facts: RedactionFactsView)
    requires
        facts.target matches Fact::Known(target) && !(target matches Some(event) && (kind_of(
            event.kind,
        ) == EventKind::RoomCreate || kind_of(event.kind) == EventKind::RoomServerAcl)),
        facts.power_levels matches Fact::Known(content) && levels_in_force(content) is None,
        facts.room_creator == Fact::<Option<Seq<char>>>::Known(None),
    ensures
        redaction_step(subject, federation, facts) == Step::<Result<bool, EngineError>, RedactionQuery>::Done(
            Err(EngineError::StorageInconsistency),
        ),
{
}

} // verus!
