//! What the requests on a room's state come to: the event that a write
//! proposes, and what a read may return.

use vstd::prelude::*;
use crate::error::{EngineError, Violation};
use crate::facts::Step;
use crate::gate::MutationRequest;
use crate::state::{entry_of, in_room, StateEntry, StateEntryView, StateView};
use crate::text::{lowercase_of, str_eq, to_lowercase};
use crate::visibility::{see_state, user_can_see_state_events, StateFacts, VisibilityQuery};

verus! {

/// The timestamp that a write may carry: the one asked for if the request
/// comes from an application service, none otherwise.
pub open spec fn accepted_timestamp(from_appservice: bool, timestamp: Option<u64>) -> Option<u64> {
    if from_appservice {
        timestamp
    } else {
        None
    }
}

/// The state event that a write request proposes. Only an application service
/// may set the event's timestamp.
pub fn send_state_event_for_key_route(
    sender: String,
    room_id: String,
    event_type: String,
    state_key: String,
    content: String,
    timestamp: Option<u64>,
    from_appservice: bool,
) -> (request: MutationRequest)
    ensures
        request.sender == sender,
        request.room_id == room_id,
        request.event_type == event_type,
        request.state_key == state_key,
        request.content == content,
        request.timestamp == accepted_timestamp(from_appservice, timestamp),
{
    MutationRequest {
        room_id,
        sender,
        event_type,
        state_key,
        content,
        timestamp: if from_appservice {
            timestamp
        } else {
            None
        },
    }
}

/// The step that refuses a read of state that is not visible.
pub open spec fn state_not_visible<T>() -> Step<Result<T, EngineError>, VisibilityQuery> {
    Step::Done(Err(EngineError::PolicyViolation(Violation::StateNotVisible)))
}

/// All of a room's current state, for a subject that may see it: the
/// entries, or the refusal, or the lookup that the decision waits for.
pub fn get_state_events_route<'a>(state: &'a StateView, room_id: &str, facts: &StateFacts) -> (step: Step<
    Result<Vec<&'a StateEntry>, EngineError>,
    VisibilityQuery,
>)
    ensures
        match see_state(facts@) {
            Step::Ask(question) => step == Step::<
                Result<Vec<&'a StateEntry>, EngineError>,
                VisibilityQuery,
            >::Ask(question),
            Step::Done(false) => step == state_not_visible::<Vec<&'a StateEntry>>(),
            Step::Done(true) => step matches Step::Done(Ok(entries)) && entries.deep_view()
                == in_room(state@, room_id@),
        },
{
    match user_can_see_state_events(facts) {
        Step::Ask(question) => Step::Ask(question),
        Step::Done(false) => Step::Done(
            Err(EngineError::PolicyViolation(Violation::StateNotVisible)),
        ),
        Step::Done(true) => Step::Done(Ok(state.room_state_full(room_id))),
    }
}

/// What a read of one state entry returns: the whole event or its content
/// alone, never both.
#[derive(Debug, PartialEq, Eq)]
pub struct StateResponse<'a> {
    /// The content alone, unless the whole event was asked for.
    pub content: Option<&'a String>,
    /// The whole event, if it was asked for.
    pub event: Option<&'a StateEntry>,
}

/// [`StateResponse`] as a mathematical value.
pub struct StateResponseView {
    pub content: Option<Seq<char>>,
    pub event: Option<StateEntryView>,
}

impl<'a> View for StateResponse<'a> {
    type V = StateResponseView;

    open spec fn view(&self) -> StateResponseView {
        StateResponseView {
            content: match self.content {
                Some(content) => Some(content@),
                None => None,
            },
            event: match self.event {
                Some(event) => Some(event.deep_view()),
                None => None,
            },
        }
    }
}

/// The response that shows an entry: the whole event if it was asked for,
/// its content alone otherwise.
pub open spec fn response_for(entry: StateEntryView, whole: bool) -> StateResponseView {
    if whole {
        StateResponseView { content: None, event: Some(entry) }
    } else {
        StateResponseView { content: Some(entry.content), event: None }
    }
}

/// The format of a request as a mathematical value.
pub open spec fn format_view(format: Option<&str>) -> Option<Seq<char>> {
    match format {
        Some(name) => Some(name@),
        None => None,
    }
}

/// Whether a read asks for the whole event: its format is given and reads
/// "event", in any case of letters.
pub open spec fn wants_event(format: Option<Seq<char>>) -> bool {
    format matches Some(name) && lowercase_of(name) == "event"@
}

/// Executable form of [`wants_event`].
pub fn is_event_format(format: Option<&str>) -> (whole: bool)
    ensures
        whole == wants_event(format_view(format)),
{
    match format {
        Some(name) => {
            let lower = to_lowercase(name);
            str_eq(lower.as_str(), "event")
        },
        None => false,
    }
}

/// One entry of a room's current state, for a subject that may see it: the
/// entry in the format asked for; or the refusal; or `NotFound` where the
/// room has no such entry; or the lookup that the decision waits for.
pub fn get_state_events_for_key_route<'a>(
    state: &'a StateView,
    room_id: &str,
    event_type: &str,
    state_key: &str,
    format: Option<&str>,
    facts: &StateFacts,
) -> (step: Step<Result<StateResponse<'a>, EngineError>, VisibilityQuery>)
    ensures
        match see_state(facts@) {
            Step::Ask(question) => step == Step::<
                Result<StateResponse<'a>, EngineError>,
                VisibilityQuery,
            >::Ask(question),
            Step::Done(false) => step == state_not_visible::<StateResponse<'a>>(),
            Step::Done(true) => match entry_of(state@, room_id@, event_type@, state_key@) {
                None => step == Step::<
                    Result<StateResponse<'a>, EngineError>,
                    VisibilityQuery,
                >::Done(Err(EngineError::NotFound)),
                Some(entry) => step matches Step::Done(Ok(response)) && response@
                    == response_for(entry, wants_event(format_view(format))),
            },
        },
{
    match user_can_see_state_events(facts) {
        Step::Ask(question) => {
            return Step::Ask(question);
        },
        Step::Done(false) => {
            return Step::Done(Err(EngineError::PolicyViolation(Violation::StateNotVisible)));
        },
        Step::Done(true) => {},
    }
    let entry = match state.room_state_single(room_id, event_type, state_key) {
        Ok(entry) => entry,
        Err(error) => {
            return Step::Done(Err(error));
        },
    };
    if is_event_format(format) {
        Step::Done(Ok(StateResponse { content: None, event: Some(entry) }))
    } else {
        Step::Done(Ok(StateResponse { content: Some(&entry.content), event: None }))
    }
}

} // verus!
