//! The current state of the rooms: one entry at most for each room, event
//! type and state key.

use vstd::prelude::*;
use crate::content::{classify, kind_of, EventKind};
use crate::error::{EngineError, Violation};
use crate::text::str_eq;

verus! {

/// One entry of a room's state.
#[derive(Clone, Debug, PartialEq, Eq)]
pub struct StateEntry {
    pub room_id: String,
    pub event_type: String,
    /// The state key; the empty string for the one entry of a singleton type.
    pub state_key: String,
    /// The content, as JSON text.
    pub content: String,
    pub sender: String,
}

/// [`StateEntry`] as a mathematical value.
pub struct StateEntryView {
    pub room_id: Seq<char>,
    pub event_type: Seq<char>,
    pub state_key: Seq<char>,
    pub content: Seq<char>,
    pub sender: Seq<char>,
}

impl DeepView for StateEntry {
    type V = StateEntryView;

    open spec fn deep_view(&self) -> StateEntryView {
        StateEntryView {
            room_id: self.room_id@,
            event_type: self.event_type@,
            state_key: self.state_key@,
            content: self.content@,
            sender: self.sender@,
        }
    }
}

impl StateEntryView {
    /// Whether the entry is the one for a room, event type and state key.
    pub open spec fn is_for(self, room: Seq<char>, event_type: Seq<char>, state_key: Seq<char>) -> bool {
        self.room_id == room && self.event_type == event_type && self.state_key == state_key
    }

    /// Whether two entries stand for the same room, event type and state key.
    pub open spec fn same_key(self, other: StateEntryView) -> bool {
        other.is_for(self.room_id, self.event_type, self.state_key)
    }
}

/// No room, event type and state key has two entries.
pub open spec fn keys_are_unique(entries: Seq<StateEntryView>) -> bool {
    forall|i: int, j: int| 0 <= i < j < entries.len() ==> !entries[i].same_key(entries[j])
}

/// Entry `i` is the one for a room, event type and state key.
pub open spec fn stands_at(
    entries: Seq<StateEntryView>,
    i: int,
    room: Seq<char>,
    event_type: Seq<char>,
    state_key: Seq<char>,
) -> bool {
    0 <= i < entries.len() && entries[i].is_for(room, event_type, state_key)
}

/// The entry for a room, event type and state key, if there is one.
pub open spec fn entry_of(
    entries: Seq<StateEntryView>,
    room: Seq<char>,
    event_type: Seq<char>,
    state_key: Seq<char>,
) -> Option<StateEntryView> {
    if exists|i: int| stands_at(entries, i, room, event_type, state_key) {
        Some(entries[choose|i: int| stands_at(entries, i, room, event_type, state_key)])
    } else {
        None
    }
}

/// The entries of one room, in their order.
pub open spec fn in_room(entries: Seq<StateEntryView>, room: Seq<char>) -> Seq<StateEntryView> {
    entries.filter(|entry: StateEntryView| entry.room_id == room)
}

/// Whether an entry would replace the create event of a room that has one.
pub open spec fn replaces_creation(entries: Seq<StateEntryView>, entry: StateEntryView) -> bool {
    kind_of(entry.event_type) == EventKind::RoomCreate && entry_of(
        entries,
        entry.room_id,
        entry.event_type,
        entry.state_key,
    ) is Some
}

/// The state once an entry was written: it stands in the place of the entry
/// it replaces, or at the end.
pub open spec fn written(entries: Seq<StateEntryView>, entry: StateEntryView) -> Seq<StateEntryView> {
    if exists|i: int| stands_at(entries, i, entry.room_id, entry.event_type, entry.state_key) {
        entries.update(
            choose|i: int| stands_at(entries, i, entry.room_id, entry.event_type, entry.state_key),
            entry,
        )
    } else {
        entries.push(entry)
    }
}

/// With unique keys an entry has one place at most.
pub proof fn lemma_place_is_unique(
    entries: Seq<StateEntryView>,
    i: int,
    room: Seq<char>,
    event_type: Seq<char>,
    state_key: Seq<char>,
)
    requires
        keys_are_unique(entries),
        stands_at(entries, i, room, event_type, state_key),
    ensures
        (choose|k: int| stands_at(entries, k, room, event_type, state_key)) == i,
        entry_of(entries, room, event_type, state_key) == Some(entries[i]),
{
    let k = choose|k: int| stands_at(entries, k, room, event_type, state_key);
    if k < i {
        assert(!entries[k].same_key(entries[i]));
    } else if i < k {
        assert(!entries[i].same_key(entries[k]));
    }
}

/// Writing an entry keeps the keys unique; the entry can be read back, and
/// every other entry is as it was.
pub proof fn lemma_written(
    entries: Seq<StateEntryView>,
    entry: StateEntryView,
    room: Seq<char>,
    event_type: Seq<char>,
    state_key: Seq<char>,
)
    requires
        keys_are_unique(entries),
    ensures
        keys_are_unique(written(entries, entry)),
        entry_of(written(entries, entry), entry.room_id, entry.event_type, entry.state_key) == Some(
            entry,
        ),
        !entry.is_for(room, event_type, state_key) ==> entry_of(
            written(entries, entry),
            room,
            event_type,
            state_key,
        ) == entry_of(entries, room, event_type, state_key),
{
    let after = written(entries, entry);
    let at = if exists|i: int| stands_at(entries, i, entry.room_id, entry.event_type, entry.state_key) {
        choose|i: int| stands_at(entries, i, entry.room_id, entry.event_type, entry.state_key)
    } else {
        entries.len() as int
    };
    assert(after.len() > at && after[at] == entry);
    assert forall|k: int| 0 <= k < after.len() && k != at implies after[k] == entries[k] && !after[k].same_key(
        entry,
    ) by {
        if at < entries.len() {
            if k < at {
                assert(!entries[k].same_key(entries[at]));
            } else {
                assert(!entries[at].same_key(entries[k]));
            }
        } else {
            if after[k].same_key(entry) {
                assert(stands_at(entries, k, entry.room_id, entry.event_type, entry.state_key));
            }
        }
    }
    assert forall|i: int, j: int| 0 <= i < j < after.len() implies !after[i].same_key(after[j]) by {
        if i != at && j != at {
            assert(!entries[i].same_key(entries[j]));
        }
    }
    assert(stands_at(after, at, entry.room_id, entry.event_type, entry.state_key));
    lemma_place_is_unique(after, at, entry.room_id, entry.event_type, entry.state_key);
    if !entry.is_for(room, event_type, state_key) {
        if exists|i: int| stands_at(entries, i, room, event_type, state_key) {
            let i = choose|i: int| stands_at(entries, i, room, event_type, state_key);
            assert(i != at);
            assert(stands_at(after, i, room, event_type, state_key));
            lemma_place_is_unique(after, i, room, event_type, state_key);
        } else {
            if exists|k: int| stands_at(after, k, room, event_type, state_key) {
                let k = choose|k: int| stands_at(after, k, room, event_type, state_key);
                assert(k != at);
                assert(stands_at(entries, k, room, event_type, state_key));
            }
        }
    }
}

/// The current state of all rooms.
pub struct StateView {
    entries: Vec<StateEntry>,
}

impl View for StateView {
    type V = Seq<StateEntryView>;

    closed spec fn view(&self) -> Seq<StateEntryView> {
        self.entries.deep_view()
    }
}

impl StateView {
    #[verifier::type_invariant]
    spec fn well_formed(self) -> bool {
        keys_are_unique(self.entries.deep_view())
    }

    /// The state of a server without rooms.
    pub fn new() -> (state: Self)
        ensures
            state@ == Seq::<StateEntryView>::empty(),
    {
        let state = StateView { entries: Vec::new() };
        assert(state.entries.deep_view() =~= Seq::empty());
        state
    }

    fn place(entries: &Vec<StateEntry>, room_id: &str, event_type: &str, state_key: &str) -> (found: Option<
        usize,
    >)
        ensures
            match found {
                Some(i) => stands_at(entries.deep_view(), i as int, room_id@, event_type@, state_key@),
                None => forall|k: int|
                    !stands_at(entries.deep_view(), k, room_id@, event_type@, state_key@),
            },
    {
        let mut i: usize = 0;
        while i < entries.len()
            invariant
                i <= entries.len(),
                forall|k: int|
                    0 <= k < i ==> !stands_at(
                        entries.deep_view(),
                        k,
                        room_id@,
                        event_type@,
                        state_key@,
                    ),
            decreases entries.len() - i,
        {
            assert(entries.deep_view()[i as int] == entries[i as int].deep_view());
            let entry = &entries[i];
            if str_eq(entry.state_key.as_str(), state_key) && str_eq(
                entry.event_type.as_str(),
                event_type,
            ) && str_eq(entry.room_id.as_str(), room_id) {
                return Some(i);
            }
            i += 1;
        }
        None
    }

    /// All entries of a room's current state, in the order in which their
    /// keys were first written.
    pub fn room_state_full(&self, room_id: &str) -> (entries: Vec<&StateEntry>)
        ensures
            keys_are_unique(self@),
            entries.deep_view() == in_room(self@, room_id@),
    {
        proof {
            use_type_invariant(self);
        }
        let ghost all = self.entries.deep_view();
        let ghost wanted = |entry: StateEntryView| entry.room_id == room_id@;
        let mut found: Vec<&StateEntry> = Vec::new();
        let mut i: usize = 0;
        proof {
            reveal(Seq::filter);
            assert(all.take(0) =~= Seq::empty());
            assert(found.deep_view() =~= all.take(0).filter(wanted));
        }
        while i < self.entries.len()
            invariant
                i <= self.entries.len(),
                all == self.entries.deep_view(),
                wanted == |entry: StateEntryView| entry.room_id == room_id@,
                found.deep_view() == all.take(i as int).filter(wanted),
            decreases self.entries.len() - i,
        {
            let ghost before = found.deep_view();
            let entry = &self.entries[i];
            proof {
                reveal(Seq::filter);
                let upto = all.take(i as int + 1);
                assert(upto.drop_last() =~= all.take(i as int));
                assert(upto.last() == entry.deep_view());
            }
            if str_eq(entry.room_id.as_str(), room_id) {
                found.push(entry);
                assert(found.deep_view() =~= before.push(entry.deep_view()));
            }
            i += 1;
        }
        assert(all.take(i as int) =~= all);
        found
    }

    /// The entry of a room's current state for an event type and a state
    /// key. It fails with `NotFound` exactly where the room has no such entry.
    pub fn room_state_single(&self, room_id: &str, event_type: &str, state_key: &str) -> (entry: Result<
        &StateEntry,
        EngineError,
    >)
        ensures
            keys_are_unique(self@),
            match entry {
                Ok(found) => entry_of(self@, room_id@, event_type@, state_key@) == Some(
                    found.deep_view(),
                ),
                Err(error) => error == EngineError::NotFound && entry_of(
                    self@,
                    room_id@,
                    event_type@,
                    state_key@,
                ) is None,
            },
    {
        proof {
            use_type_invariant(self);
        }
        match Self::place(&self.entries, room_id, event_type, state_key) {
            Some(i) => {
                proof {
                    lemma_place_is_unique(self@, i as int, room_id@, event_type@, state_key@);
                }
                Ok(&self.entries[i])
            },
            None => Err(EngineError::NotFound),
        }
    }

    /// Writes an entry into the state of its room, in place of the entry with
    /// its event type and state key if there is one. A room's create event is
    /// never replaced: that write is refused as a policy violation and
    /// changes nothing.
    pub fn commit(&mut self, entry: StateEntry) -> (outcome: Result<(), EngineError>)
        ensures
            keys_are_unique(old(self)@),
            keys_are_unique(final(self)@),
            match outcome {
                Ok(()) => !replaces_creation(old(self)@, entry.deep_view()) && final(self)@
                    == written(old(self)@, entry.deep_view()),
                Err(error) => replaces_creation(old(self)@, entry.deep_view()) && error
                    == EngineError::PolicyViolation(Violation::CreateIsImmutable) && final(self)@
                    == old(self)@,
            },
    {
        proof {
            use_type_invariant(&*self);
        }
        let ghost before = self@;
        let ghost new = entry.deep_view();
        proof {
            lemma_written(before, new, new.room_id, new.event_type, new.state_key);
        }
        let found = Self::place(
            &self.entries,
            entry.room_id.as_str(),
            entry.event_type.as_str(),
            entry.state_key.as_str(),
        );
        match found {
            Some(i) => {
                proof {
                    lemma_place_is_unique(
                        before,
                        i as int,
                        new.room_id,
                        new.event_type,
                        new.state_key,
                    );
                }
                if let EventKind::RoomCreate = classify(entry.event_type.as_str()) {
                    return Err(EngineError::PolicyViolation(Violation::CreateIsImmutable));
                }
                let mut entries = Vec::new();
                std::mem::swap(&mut entries, &mut self.entries);
                entries.set(i, entry);
                assert(entries.deep_view() =~= written(before, new));
                self.entries = entries;
            },
            None => {
                let mut entries = Vec::new();
                std::mem::swap(&mut entries, &mut self.entries);
                entries.push(entry);
                assert(entries.deep_view() =~= written(before, new));
                self.entries = entries;
            },
        }
        Ok(())
    }
}

/// The create event of a room, once written, is never superseded or removed:
/// whatever is committed afterwards, and however that ends, the room's create
/// entry stays what it was.
pub proof fn lemma_creation_is_permanent(
    entries: Seq<StateEntryView>,
    entry: StateEntryView,
    room: Seq<char>,
    event_type: Seq<char>,
    state_key: Seq<char>,
)
    requires
        keys_are_unique(entries),
        kind_of(event_type) == EventKind::RoomCreate,
        entry_of(entries, room, event_type, state_key) is Some,
    ensures
        ({
            let after = if replaces_creation(entries, entry) {
                entries
            } else {
                written(entries, entry)
            };
            entry_of(after, room, event_type, state_key) == entry_of(
                entries,
                room,
                event_type,
                state_key,
            )
        }),
{
    lemma_written(entries, entry, room, event_type, state_key);
}

} // verus!
