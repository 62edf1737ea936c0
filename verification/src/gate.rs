//! The mutation gate: what every proposed state event passes.
//!
//! It orders the mutations of a room: an attempt validates and appends
//! only while it holds the room's lock, and gives the lock back on every way
//! out. It performs neither lookups nor the append itself. It is told
//! what happened and answers with what to do next.

use vstd::prelude::*;
use crate::content::{is_json, is_json_text};
use crate::error::{Defect, EngineError};
use crate::facts::{Fact, Step};
use crate::policy::{
    allowed_to_send_state_event, policy_step, PolicyFacts, PolicyFactsView, PolicyQuery,
    PolicyQuestion, ServerConfig,
};
use crate::text::str_eq;

verus! {

/// A proposed state event.
#[derive(Clone, Debug, PartialEq, Eq)]
pub struct MutationRequest {
    pub room_id: String,
    pub sender: String,
    pub event_type: String,
    pub state_key: String,
    /// The proposed content, as JSON text.
    pub content: String,
    /// The timestamp that the sender asks for, in milliseconds.
    pub timestamp: Option<u64>,
}

/// [`MutationRequest`] as a mathematical value.
pub struct RequestView {
    pub room_id: Seq<char>,
    pub sender: Seq<char>,
    pub event_type: Seq<char>,
    pub state_key: Seq<char>,
    pub content: Seq<char>,
    pub timestamp: Option<u64>,
}

impl View for MutationRequest {
    type V = RequestView;

    open spec fn view(&self) -> RequestView {
        RequestView {
            room_id: self.room_id@,
            sender: self.sender@,
            event_type: self.event_type@,
            state_key: self.state_key@,
            content: self.content@,
            timestamp: self.timestamp,
        }
    }
}

/// How far an attempt has come.
#[derive(Clone, Copy, Debug, PartialEq, Eq, Structural)]
pub enum Phase {
    /// It does not hold the room's lock yet.
    Waiting,
    /// It holds the lock and checks the rules.
    Validating,
    /// It holds the lock, the rules are met, and the append is under way.
    Appending,
    /// It is over and holds no lock.
    Finished,
}

/// What an attempt is told.
#[derive(Clone, Debug, PartialEq, Eq)]
pub enum GateEvent {
    /// Start, or try again after a wait.
    Start,
    /// The admin room was looked up.
    AdminRoom(Option<String>),
    /// An alias was resolved: the alias, and the room it leads to.
    AliasTarget(String, Option<String>),
    /// A subject's membership was looked up: the subject, and whether it is
    /// joined.
    Joined(String, bool),
    /// The timeline service appended the event under this identifier.
    Appended(String),
    /// The timeline service failed; nothing was written.
    AppendFailed,
    /// The caller gives up.
    Abandoned,
}

/// [`GateEvent`] as a mathematical value.
pub enum GateEventView {
    Start,
    AdminRoom(Option<Seq<char>>),
    AliasTarget(Seq<char>, Option<Seq<char>>),
    Joined(Seq<char>, bool),
    Appended(Seq<char>),
    AppendFailed,
    Abandoned,
}

impl View for GateEvent {
    type V = GateEventView;

    open spec fn view(&self) -> GateEventView {
        match self {
            GateEvent::Start => GateEventView::Start,
            GateEvent::AdminRoom(room) => GateEventView::AdminRoom(room.deep_view()),
            GateEvent::AliasTarget(alias, room) => GateEventView::AliasTarget(alias@, room.deep_view()),
            GateEvent::Joined(user, joined) => GateEventView::Joined(user@, *joined),
            GateEvent::Appended(event_id) => GateEventView::Appended(event_id@),
            GateEvent::AppendFailed => GateEventView::AppendFailed,
            GateEvent::Abandoned => GateEventView::Abandoned,
        }
    }
}

/// What an attempt has to do next.
#[derive(Debug, PartialEq, Eq)]
pub enum GateAction {
    /// Another attempt holds the room's lock: wait, then start again.
    Wait,
    /// Make this lookup and report the answer.
    Ask(PolicyQuery),
    /// The rules are met: append the request's event and report how it went.
    Append,
    /// The attempt is over: the new event's identifier, or why there is none.
    Finished(Result<String, EngineError>),
    /// The attempt is over without a verdict, and nothing was written.
    Aborted,
}

/// [`GateAction`] as a mathematical value.
pub enum GateActionView {
    Wait,
    Ask(PolicyQuestion),
    Append,
    Finished(Result<Seq<char>, EngineError>),
    Aborted,
}

impl View for GateAction {
    type V = GateActionView;

    open spec fn view(&self) -> GateActionView {
        match self {
            GateAction::Wait => GateActionView::Wait,
            GateAction::Ask(query) => GateActionView::Ask(query@),
            GateAction::Append => GateActionView::Append,
            GateAction::Finished(Ok(event_id)) => GateActionView::Finished(Ok(event_id@)),
            GateAction::Finished(Err(error)) => GateActionView::Finished(Err(*error)),
            GateAction::Aborted => GateActionView::Aborted,
        }
    }
}

/// One attempt to send a state event.
pub struct MutationAttempt {
    request: MutationRequest,
    facts: PolicyFacts,
    phase: Phase,
}

/// [`MutationAttempt`] as a mathematical value.
pub struct AttemptView {
    pub request: RequestView,
    pub facts: PolicyFactsView,
    pub phase: Phase,
}

impl AttemptView {
    /// Whether the attempt holds its room's lock: whether it is between the
    /// start of validation and the end of the append.
    pub open spec fn holds_lock(self) -> bool {
        self.phase == Phase::Validating || self.phase == Phase::Appending
    }

    /// The attempt in another phase.
    pub open spec fn in_phase(self, phase: Phase) -> AttemptView {
        AttemptView { phase, ..self }
    }

    /// The attempt once an event brought an answer: the answer is recorded.
    pub open spec fn informed(self, event: GateEventView) -> AttemptView {
        match event {
            GateEventView::AdminRoom(room) => AttemptView {
                facts: PolicyFactsView { admin_room: Fact::Known(room), ..self.facts },
                ..self
            },
            GateEventView::AliasTarget(alias, room) => AttemptView {
                facts: PolicyFactsView {
                    alias_targets: self.facts.alias_targets.insert(alias, room),
                    ..self.facts
                },
                ..self
            },
            GateEventView::Joined(user, joined) => AttemptView {
                facts: PolicyFactsView { joined: self.facts.joined.insert(user, joined), ..self.facts },
                ..self
            },
            _ => self,
        }
    }
}

impl View for MutationAttempt {
    type V = AttemptView;

    closed spec fn view(&self) -> AttemptView {
        AttemptView { request: self.request@, facts: self.facts@, phase: self.phase }
    }
}

impl MutationAttempt {
    /// A fresh attempt: it waits for the lock and knows nothing yet.
    pub fn new(request: MutationRequest) -> (attempt: Self)
        ensures
            attempt@.request == request@,
            attempt@.phase == Phase::Waiting,
            attempt@.facts == PolicyFactsView::none(),
    {
        MutationAttempt { request, facts: PolicyFacts::new(), phase: Phase::Waiting }
    }

    /// The event that this attempt proposes.
    pub fn request(&self) -> (request: &MutationRequest)
        ensures
            request@ == self@.request,
    {
        &self.request
    }

    /// How far the attempt has come.
    pub fn phase(&self) -> (phase: Phase)
        ensures
            phase == self@.phase,
    {
        self.phase
    }
}

/// A [`MutationGate`] as a mathematical value: the server's settings, and the rooms
/// whose lock is held.
pub struct GateView {
    pub server_name: Seq<char>,
    pub allow_encryption: bool,
    pub locked: Set<Seq<char>>,
}

impl GateView {
    /// This value once the lock of `room` is taken.
    pub open spec fn lock(self, room: Seq<char>) -> GateView {
        GateView { locked: self.locked.insert(room), ..self }
    }

    /// This value once the lock of `room` is given back.
    pub open spec fn unlock(self, room: Seq<char>) -> GateView {
        GateView { locked: self.locked.remove(room), ..self }
    }
}

/// What a gate and an attempt become, and what the attempt has to do, when
/// the attempt ends: its lock is given back.
pub open spec fn close(gate: GateView, attempt: AttemptView, action: GateActionView) -> (
    GateView,
    AttemptView,
    GateActionView,
) {
    (gate.unlock(attempt.request.room_id), attempt.in_phase(Phase::Finished), action)
}

/// Validation, for an attempt that holds the lock: the next lookup; or the
/// rejection, which ends the attempt; or, with the rules met and the content
/// being JSON, the order to append.
pub open spec fn validate(gate: GateView, attempt: AttemptView) -> (GateView, AttemptView, GateActionView) {
    let request = attempt.request;
    match policy_step(
        gate.server_name,
        gate.allow_encryption,
        attempt.facts,
        request.room_id,
        request.event_type,
        request.state_key,
        request.content,
    ) {
        Step::Ask(question) => (gate, attempt.in_phase(Phase::Validating), GateActionView::Ask(question)),
        Step::Done(Err(error)) => close(gate, attempt, GateActionView::Finished(Err(error))),
        Step::Done(Ok(())) => if is_json(request.content) {
            (gate, attempt.in_phase(Phase::Appending), GateActionView::Append)
        } else {
            close(
                gate,
                attempt,
                GateActionView::Finished(Err(EngineError::Malformed(Defect::ContentNotJson))),
            )
        },
    }
}

/// One step of an attempt.
///
/// * Waiting: the attempt takes the room's lock if it is free and validates
///   at once; else it waits.
/// * Validating: an answer is recorded and validation goes on.
/// * Appending: the outcome of the append ends the attempt.
/// * Giving up ends the attempt in any phase.
/// * Whenever the attempt ends, its lock is given back.
pub open spec fn gate_step(gate: GateView, attempt: AttemptView, event: GateEventView) -> (
    GateView,
    AttemptView,
    GateActionView,
) {
    match attempt.phase {
        Phase::Waiting => if event is Abandoned {
            (gate, attempt.in_phase(Phase::Finished), GateActionView::Aborted)
        } else if gate.locked.contains(attempt.request.room_id) {
            (gate, attempt, GateActionView::Wait)
        } else {
            validate(gate.lock(attempt.request.room_id), attempt)
        },
        Phase::Validating => if event is Abandoned {
            close(gate, attempt, GateActionView::Aborted)
        } else {
            validate(gate, attempt.informed(event))
        },
        Phase::Appending => match event {
            GateEventView::Appended(event_id) => close(
                gate,
                attempt,
                GateActionView::Finished(Ok(event_id)),
            ),
            GateEventView::AppendFailed => close(gate, attempt, GateActionView::Aborted),
            GateEventView::Abandoned => close(gate, attempt, GateActionView::Aborted),
            _ => (gate, attempt, GateActionView::Append),
        },
        Phase::Finished => (gate, attempt, GateActionView::Aborted),
    }
}

/// The mutation gate of one server: its settings and the room locks.
pub struct MutationGate {
    config: ServerConfig,
    locked: Vec<String>,
}

impl View for MutationGate {
    type V = GateView;

    closed spec fn view(&self) -> GateView {
        GateView {
            server_name: self.config.server_name@,
            allow_encryption: self.config.allow_encryption,
            locked: self.locked.deep_view().to_set(),
        }
    }
}

impl MutationGate {
    #[verifier::type_invariant]
    spec fn well_formed(self) -> bool {
        self.locked.deep_view().no_duplicates()
    }

    /// A gate with every room unlocked.
    pub fn new(config: ServerConfig) -> (gate: Self)
        ensures
            gate@.server_name == config.server_name@,
            gate@.allow_encryption == config.allow_encryption,
            gate@.locked == Set::<Seq<char>>::empty(),
    {
        let gate = MutationGate { config, locked: Vec::new() };
        assert(gate.locked.deep_view() =~= Seq::empty());
        assert(gate.locked.deep_view().to_set() =~= Set::empty());
        gate
    }

    fn position(locked: &Vec<String>, room_id: &str) -> (found: Option<usize>)
        ensures
            match found {
                Some(i) => i < locked.len() && locked.deep_view()[i as int] == room_id@,
                None => !locked.deep_view().contains(room_id@),
            },
    {
        let mut i: usize = 0;
        while i < locked.len()
            invariant
                i <= locked.len(),
                forall|k: int| 0 <= k < i ==> locked.deep_view()[k] != room_id@,
            decreases locked.len() - i,
        {
            assert(locked.deep_view()[i as int] == locked[i as int]@);
            if str_eq(locked[i].as_str(), room_id) {
                return Some(i);
            }
            i += 1;
        }
        None
    }

    /// Whether the lock of a room is held.
    pub fn is_locked(&self, room_id: &str) -> (locked: bool)
        ensures
            locked == self@.locked.contains(room_id@),
    {
        Self::position(&self.locked, room_id).is_some()
    }

    fn lock(&mut self, room_id: &str)
        requires
            !old(self)@.locked.contains(room_id@),
        ensures
            final(self)@ == old(self)@.lock(room_id@),
    {
        proof {
            use_type_invariant(&*self);
        }
        let ghost before = self.locked.deep_view();
        let mut locked = Vec::new();
        std::mem::swap(&mut locked, &mut self.locked);
        locked.push(room_id.to_owned());
        proof {
            let after = locked.deep_view();
            assert(after =~= before.push(room_id@));
            assert(after.to_set() =~= before.to_set().insert(room_id@)) by {
                assert forall|room: Seq<char>| after.contains(room) <==> before.contains(room)
                    || room == room_id@ by {
                    if before.contains(room) {
                        let k = choose|k: int| 0 <= k < before.len() && before[k] == room;
                        assert(after[k] == room);
                    }
                    if room == room_id@ {
                        assert(after[before.len() as int] == room);
                    }
                }
            }
        }
        self.locked = locked;
    }

    fn unlock(&mut self, room_id: &str)
        ensures
            final(self)@ == old(self)@.unlock(room_id@),
    {
        proof {
            use_type_invariant(&*self);
        }
        let ghost before = self.locked.deep_view();
        let mut locked = Vec::new();
        std::mem::swap(&mut locked, &mut self.locked);
        if let Some(i) = Self::position(&locked, room_id) {
            locked.remove(i);
            proof {
                let after = locked.deep_view();
                assert(after =~= before.remove(i as int));
                assert(after.to_set() =~= before.to_set().remove(room_id@)) by {
                    assert forall|room: Seq<char>| after.contains(room) <==> before.contains(room)
                        && room != room_id@ by {
                        if after.contains(room) {
                            let k = choose|k: int| 0 <= k < after.len() && after[k] == room;
                            let from = if k < i { k } else { k + 1 };
                            assert(before[from] == room);
                        }
                        if before.contains(room) && room != room_id@ {
                            let k = choose|k: int| 0 <= k < before.len() && before[k] == room;
                            let to = if k < i { k } else { k - 1 };
                            assert(after[to] == room);
                        }
                    }
                }
            }
        } else {
            assert(before.to_set() =~= before.to_set().remove(room_id@));
        }
        self.locked = locked;
    }

    fn close(&mut self, attempt: &mut MutationAttempt)
        ensures
            final(self)@ == old(self)@.unlock(old(attempt)@.request.room_id),
            final(attempt)@ == old(attempt)@.in_phase(Phase::Finished),
    {
        self.unlock(attempt.request.room_id.as_str());
        attempt.phase = Phase::Finished;
    }

    fn validate(&mut self, attempt: &mut MutationAttempt) -> (action: GateAction)
        ensures
            (final(self)@, final(attempt)@, action@) == validate(old(self)@, old(attempt)@),
    {
        let step = allowed_to_send_state_event(
            &self.config,
            &attempt.facts,
            attempt.request.room_id.as_str(),
            attempt.request.event_type.as_str(),
            attempt.request.state_key.as_str(),
            attempt.request.content.as_str(),
        );
        match step {
            Step::Ask(query) => {
                attempt.phase = Phase::Validating;
                GateAction::Ask(query)
            },
            Step::Done(Err(error)) => {
                self.close(attempt);
                GateAction::Finished(Err(error))
            },
            Step::Done(Ok(())) => {
                if is_json_text(attempt.request.content.as_str()) {
                    attempt.phase = Phase::Appending;
                    GateAction::Append
                } else {
                    self.close(attempt);
                    GateAction::Finished(Err(EngineError::Malformed(Defect::ContentNotJson)))
                }
            },
        }
    }

    /// Takes an attempt one step further: tells it what happened and learns
    /// what it has to do next.
    pub fn advance(&mut self, attempt: &mut MutationAttempt, event: GateEvent) -> (action: GateAction)
        ensures
            (final(self)@, final(attempt)@, action@) == gate_step(old(self)@, old(attempt)@, event@),
    {
        match attempt.phase {
            Phase::Waiting => {
                if let GateEvent::Abandoned = event {
                    attempt.phase = Phase::Finished;
                    GateAction::Aborted
                } else if self.is_locked(attempt.request.room_id.as_str()) {
                    GateAction::Wait
                } else {
                    self.lock(attempt.request.room_id.as_str());
                    self.validate(attempt)
                }
            },
            Phase::Validating => {
                match event {
                    GateEvent::Abandoned => {
                        self.close(attempt);
                        GateAction::Aborted
                    },
                    GateEvent::AdminRoom(room) => {
                        attempt.facts.admin_room = Fact::Known(room);
                        self.validate(attempt)
                    },
                    GateEvent::AliasTarget(alias, room) => {
                        attempt.facts.alias_targets.set(alias, room);
                        self.validate(attempt)
                    },
                    GateEvent::Joined(user, joined) => {
                        attempt.facts.joined.set(user, joined);
                        self.validate(attempt)
                    },
                    _ => self.validate(attempt),
                }
            },
            Phase::Appending => {
                match event {
                    GateEvent::Appended(event_id) => {
                        self.close(attempt);
                        GateAction::Finished(Ok(event_id))
                    },
                    GateEvent::AppendFailed => {
                        self.close(attempt);
                        GateAction::Aborted
                    },
                    GateEvent::Abandoned => {
                        self.close(attempt);
                        GateAction::Aborted
                    },
                    _ => GateAction::Append,
                }
            },
            Phase::Finished => GateAction::Aborted,
        }
    }
}

/// A gate together with the attempts that are under way at it.
pub struct System {
    pub gate: GateView,
    pub attempts: Seq<AttemptView>,
}

impl System {
    /// Mutation is serialized per room: an attempt that is validating or
    /// appending holds its room's lock, and no two such attempts are for the
    /// same room.
    pub open spec fn serialized(self) -> bool {
        &&& forall|i: int|
            0 <= i < self.attempts.len() && (#[trigger] self.attempts[i]).holds_lock()
                ==> self.gate.locked.contains(self.attempts[i].request.room_id)
        &&& forall|i: int, j: int|
            0 <= i < j < self.attempts.len() && (#[trigger] self.attempts[i]).holds_lock() && (
            #[trigger] self.attempts[j]).holds_lock() ==> self.attempts[i].request.room_id
                != self.attempts[j].request.room_id
    }

    /// The system after attempt `i` took a step.
    pub open spec fn step(self, i: int, event: GateEventView) -> System {
        let (gate, attempt, _) = gate_step(self.gate, self.attempts[i], event);
        System { gate, attempts: self.attempts.update(i, attempt) }
    }

    /// The system after a fresh attempt arrived.
    pub open spec fn arrival(self, request: RequestView) -> System {
        System {
            gate: self.gate,
            attempts: self.attempts.push(
                AttemptView { request, facts: PolicyFactsView::none(), phase: Phase::Waiting },
            ),
        }
    }
}

/// What a step leaves as it is: the request, the server's settings and the
/// lock of every other room. A step ends the attempt exactly when its action
/// is final, and afterwards the attempt holds its room's lock exactly if the
/// lock is recorded as held by it: a lock is never leaked on the way out.
pub proof fn lemma_every_exit_gives_the_lock_back(gate: GateView, attempt: AttemptView, event: GateEventView)
    requires
        attempt.holds_lock() ==> gate.locked.contains(attempt.request.room_id),
    ensures
        ({
            let (after, next, action) = gate_step(gate, attempt, event);
            let room = attempt.request.room_id;
            &&& next.request == attempt.request
            &&& after.server_name == gate.server_name
            &&& after.allow_encryption == gate.allow_encryption
            &&& forall|other: Seq<char>|
                other != room ==> after.locked.contains(other) == gate.locked.contains(other)
            &&& (action is Finished || action is Aborted) <==> next.phase == Phase::Finished
            &&& next.holds_lock() ==> after.locked.contains(room)
            &&& attempt.holds_lock() && !next.holds_lock() ==> !after.locked.contains(room)
            &&& !attempt.holds_lock() && !next.holds_lock() ==> after.locked.contains(room)
                == gate.locked.contains(room)
        }),
{
}

/// No two mutation attempts for one room are ever mid-validation at the same
/// time: whichever attempt takes whichever step, a serialized system stays
/// serialized.
pub proof fn lemma_mutations_stay_serialized(system: System, i: int, event: GateEventView)
    requires
        system.serialized(),
        0 <= i < system.attempts.len(),
    ensures
        system.step(i, event).serialized(),
{
    let after = system.step(i, event);
    let room = system.attempts[i].request.room_id;
    lemma_every_exit_gives_the_lock_back(system.gate, system.attempts[i], event);
    assert forall|k: int|
        0 <= k < after.attempts.len() && (#[trigger] after.attempts[k]).holds_lock() implies after.gate.locked.contains(
        after.attempts[k].request.room_id,
    ) by {
        if k != i {
            assert(system.attempts[k].holds_lock());
            if system.attempts[k].request.room_id == room {
                if system.attempts[i].holds_lock() {
                    if k < i {
                        assert(system.attempts[k].request.room_id
                            != system.attempts[i].request.room_id);
                    } else {
                        assert(system.attempts[i].request.room_id
                            != system.attempts[k].request.room_id);
                    }
                }
            }
        }
    }
    assert forall|a: int, b: int|
        0 <= a < b < after.attempts.len() && (#[trigger] after.attempts[a]).holds_lock() && (
        #[trigger] after.attempts[b]).holds_lock() implies after.attempts[a].request.room_id
        != after.attempts[b].request.room_id by {
        if a != i && b != i {
            assert(system.attempts[a].holds_lock() && system.attempts[b].holds_lock());
        } else {
            let other = if a == i { b } else { a };
            assert(system.attempts[other].holds_lock());
            if system.attempts[i].holds_lock() {
                if other < i {
                    assert(system.attempts[other].request.room_id
                        != system.attempts[i].request.room_id);
                } else {
                    assert(system.attempts[i].request.room_id
                        != system.attempts[other].request.room_id);
                }
            }
        }
    }
}

/// A gate without attempts is serialized, and the arrival of a fresh attempt
/// keeps a system serialized.
pub proof fn lemma_arrivals_keep_serialization(system: System, request: RequestView)
    requires
        system.serialized(),
    ensures
        system.arrival(request).serialized(),
        (System { gate: system.gate, attempts: Seq::empty() }).serialized(),
{
    let after = system.arrival(request);
    assert forall|k: int|
        0 <= k < after.attempts.len() && (#[trigger] after.attempts[k]).holds_lock() implies after.gate.locked.contains(
        after.attempts[k].request.room_id,
    ) by {
        assert(after.attempts[k] == system.attempts[k]);
    }
    assert forall|a: int, b: int|
        0 <= a < b < after.attempts.len() && (#[trigger] after.attempts[a]).holds_lock() && (
        #[trigger] after.attempts[b]).holds_lock() implies after.attempts[a].request.room_id
        != after.attempts[b].request.room_id by {
        assert(after.attempts[a] == system.attempts[a]);
        assert(after.attempts[b] == system.attempts[b]);
    }
}

/// Whether an attempt that is appending has earned it: the rules are met by
/// the facts it holds, and its content is JSON.
pub open spec fn validated(gate: GateView, attempt: AttemptView) -> bool {
    attempt.phase == Phase::Appending ==> is_json(attempt.request.content) && policy_step(
        gate.server_name,
        gate.allow_encryption,
        attempt.facts,
        attempt.request.room_id,
        attempt.request.event_type,
        attempt.request.state_key,
        attempt.request.content,
    ) == Step::<Result<(), EngineError>, PolicyQuestion>::Done(Ok(()))
}

/// Nothing is appended that the rules do not allow: the order to append is
/// given only to an attempt that holds the lock and has passed validation,
/// and an event identifier is handed out only for an append that such an
/// attempt reports.
pub proof fn lemma_append_follows_validation(gate: GateView, attempt: AttemptView, event: GateEventView)
    requires
        validated(gate, attempt),
    ensures
        validated(gate_step(gate, attempt, event).0, gate_step(gate, attempt, event).1),
        gate_step(gate, attempt, event).2 is Append <==> gate_step(gate, attempt, event).1.phase
            == Phase::Appending,
        gate_step(gate, attempt, event).2 matches GateActionView::Finished(Ok(event_id))
            ==> attempt.phase == Phase::Appending && event == GateEventView::Appended(event_id),
        event matches GateEventView::Appended(event_id) ==> (attempt.phase == Phase::Appending
            ==> gate_step(gate, attempt, event).2 == GateActionView::Finished(Ok(event_id))),
{
    match attempt.phase {
        Phase::Waiting => {
            if !(event is Abandoned) && !gate.locked.contains(attempt.request.room_id) {
                lemma_validation_is_sound(gate.lock(attempt.request.room_id), attempt);
            }
        },
        Phase::Validating => {
            if !(event is Abandoned) {
                lemma_validation_is_sound(gate, attempt.informed(event));
            }
        },
        _ => {},
    }
}

/// Validation lets an attempt append only with the rules met and the content
/// being JSON.
pub proof fn lemma_validation_is_sound(gate: GateView, attempt: AttemptView)
    ensures
        validated(validate(gate, attempt).0, validate(gate, attempt).1),
        validate(gate, attempt).2 is Append <==> validate(gate, attempt).1.phase == Phase::Appending,
        !(validate(gate, attempt).2 matches GateActionView::Finished(Ok(_))),
{
    let request = attempt.request;
    let verdict = policy_step(
        gate.server_name,
        gate.allow_encryption,
        attempt.facts,
        request.room_id,
        request.event_type,
        request.state_key,
        request.content,
    );
    if let Step::Done(Ok(unit)) = verdict {
        // every unit value is the unit value
        assert(unit == ());
    }
}

/// An attempt whose request the rules allow succeeds: it takes the free lock
/// and is told to append, and when the append is reported it ends with the
/// new event's identifier and the lock free again.
pub proof fn lemma_allowed_request_succeeds(gate: GateView, attempt: AttemptView, event_id: Seq<char>)
    requires
        attempt.phase == Phase::Waiting,
        !gate.locked.contains(attempt.request.room_id),
        is_json(attempt.request.content),
        policy_step(
            gate.server_name,
            gate.allow_encryption,
            attempt.facts,
            attempt.request.room_id,
            attempt.request.event_type,
            attempt.request.state_key,
            attempt.request.content,
        ) == Step::<Result<(), EngineError>, PolicyQuestion>::Done(Ok(())),
    ensures
        gate_step(gate, attempt, GateEventView::Start) == (
            gate.lock(attempt.request.room_id),
            attempt.in_phase(Phase::Appending),
            GateActionView::Append,
        ),
        gate_step(
            gate.lock(attempt.request.room_id),
            attempt.in_phase(Phase::Appending),
            GateEventView::Appended(event_id),
        ) == (gate, attempt.in_phase(Phase::Finished), GateActionView::Finished(Ok(event_id))),
{
    let room = attempt.request.room_id;
    assert(gate.lock(room).unlock(room).locked =~= gate.locked);
}

/// An attempt whose request the rules reject ends with that rejection, writes
/// nothing and leaves the lock free.
pub proof fn lemma_rejected_request_fails(gate: GateView, attempt: AttemptView, error: EngineError)
    requires
        attempt.phase == Phase::Waiting,
        !gate.locked.contains(attempt.request.room_id),
        policy_step(
            gate.server_name,
            gate.allow_encryption,
            attempt.facts,
            attempt.request.room_id,
            attempt.request.event_type,
            attempt.request.state_key,
            attempt.request.content,
        ) == Step::<Result<(), EngineError>, PolicyQuestion>::Done(Err(error)),
    ensures
        gate_step(gate, attempt, GateEventView::Start) == (
            gate,
            attempt.in_phase(Phase::Finished),
            GateActionView::Finished(Err(error)),
        ),
{
    let room = attempt.request.room_id;
    assert(gate.lock(room).unlock(room).locked =~= gate.locked);
}

/// Giving up before the lock is taken changes nothing but the attempt;
/// giving up while the lock is held gives it back. Either way the attempt is
/// over and nothing is written.
pub proof fn lemma_abandoning_is_safe(gate: GateView, attempt: AttemptView)
    requires
        attempt.holds_lock() ==> gate.locked.contains(attempt.request.room_id),
    ensures
        gate_step(gate, attempt, GateEventView::Abandoned).2 == GateActionView::Aborted,
        gate_step(gate, attempt, GateEventView::Abandoned).1 == attempt.in_phase(Phase::Finished),
        gate_step(gate, attempt, GateEventView::Abandoned).0 == if attempt.holds_lock() {
            gate.unlock(attempt.request.room_id)
        } else {
            gate
        },
{
}

} // verus!
