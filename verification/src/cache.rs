//! The memo of visibility decisions.
//!
//! A decision is a function of the subject and the snapshot, and a snapshot
//! never changes, so an entry never has to be invalidated. The memo is bounded
//! all the same: when it is full, the entry that was used least recently makes
//! room.

use vstd::prelude::*;
use crate::text::str_eq;

verus! {

/// One remembered decision.
pub struct CacheEntry {
    subject: String,
    snapshot: u64,
    visible: bool,
}

/// [`CacheEntry`] as a mathematical value.
pub struct EntryView {
    pub subject: Seq<char>,
    pub snapshot: u64,
    pub visible: bool,
}

impl DeepView for CacheEntry {
    type V = EntryView;

    closed spec fn deep_view(&self) -> EntryView {
        EntryView { subject: self.subject@, snapshot: self.snapshot, visible: self.visible }
    }
}

/// The memo as a mathematical value: its bound, and its entries from the one
/// used least recently to the one used most recently.
pub struct CacheView {
    pub capacity: nat,
    pub entries: Seq<EntryView>,
}

impl CacheView {
    /// Entry `i` is the one for the given subject and snapshot.
    pub open spec fn holds(self, i: int, subject: Seq<char>, snapshot: u64) -> bool {
        &&& 0 <= i < self.entries.len()
        &&& self.entries[i].subject == subject
        &&& self.entries[i].snapshot == snapshot
    }

    /// No key has two entries, and the bound is kept.
    pub open spec fn wf(self) -> bool {
        &&& self.entries.len() <= self.capacity
        &&& forall|i: int, j: int|
            0 <= i < j < self.entries.len() ==> !(self.entries[i].subject
                == self.entries[j].subject && self.entries[i].snapshot
                == self.entries[j].snapshot)
    }

    /// Where the entry for a key stands, if there is one.
    pub open spec fn index_of(self, subject: Seq<char>, snapshot: u64) -> Option<int> {
        if exists|i: int| self.holds(i, subject, snapshot) {
            Some(choose|i: int| self.holds(i, subject, snapshot))
        } else {
            None
        }
    }

    /// The decision remembered for a key, if there is one.
    pub open spec fn get(self, subject: Seq<char>, snapshot: u64) -> Option<bool> {
        match self.index_of(subject, snapshot) {
            Some(i) => Some(self.entries[i].visible),
            None => None,
        }
    }

    /// The memo after a key was used: its entry is now the most recent one.
    pub open spec fn touch(self, subject: Seq<char>, snapshot: u64) -> CacheView {
        match self.index_of(subject, snapshot) {
            Some(i) => CacheView {
                capacity: self.capacity,
                entries: self.entries.remove(i).push(self.entries[i]),
            },
            None => self,
        }
    }

    /// The memo after a decision was remembered: the key's entry is the most
    /// recent one and holds the decision; where the key is new and the memo
    /// is full, the least recently used entry has left. A memo with no room
    /// at all remembers nothing.
    pub open spec fn put(self, subject: Seq<char>, snapshot: u64, visible: bool) -> CacheView {
        let entry = EntryView { subject, snapshot, visible };
        if self.capacity == 0 {
            self
        } else {
            match self.index_of(subject, snapshot) {
                Some(i) => CacheView {
                    capacity: self.capacity,
                    entries: self.entries.remove(i).push(entry),
                },
                None => if self.entries.len() >= self.capacity {
                    CacheView { capacity: self.capacity, entries: self.entries.drop_first().push(entry) }
                } else {
                    CacheView { capacity: self.capacity, entries: self.entries.push(entry) }
                },
            }
        }
    }
}

/// In a well-formed memo a key has one place at most.
pub proof fn lemma_index_is_unique(cache: CacheView, i: int, subject: Seq<char>, snapshot: u64)
    requires
        cache.wf(),
        cache.holds(i, subject, snapshot),
    ensures
        cache.index_of(subject, snapshot) == Some(i),
{
    let j = choose|j: int| cache.holds(j, subject, snapshot);
    if i < j {
        assert(!(cache.entries[i].subject == cache.entries[j].subject && cache.entries[i].snapshot
            == cache.entries[j].snapshot));
    } else if j < i {
        assert(!(cache.entries[j].subject == cache.entries[i].subject && cache.entries[j].snapshot
            == cache.entries[i].snapshot));
    }
}

/// Using a key keeps the memo well-formed and changes no decision.
pub proof fn lemma_touch(cache: CacheView, subject: Seq<char>, snapshot: u64, other: Seq<char>, at: u64)
    requires
        cache.wf(),
    ensures
        cache.touch(subject, snapshot).wf(),
        cache.touch(subject, snapshot).get(other, at) == cache.get(other, at),
{
    let after = cache.touch(subject, snapshot);
    if let Some(i) = cache.index_of(subject, snapshot) {
        let last = after.entries.len() - 1;
        assert forall|k: int| 0 <= k < after.entries.len() implies after.entries[k]
            == cache.entries[if k == last {
            i
        } else if k < i {
            k
        } else {
            k + 1
        }] by {}
        if let Some(j) = cache.index_of(other, at) {
            let moved = if j == i {
                last
            } else if j < i {
                j
            } else {
                j - 1
            };
            assert(after.holds(moved, other, at));
            lemma_index_is_unique(after, moved, other, at);
        } else {
            if let Some(k) = after.index_of(other, at) {
                assert(cache.holds(if k == last {
                    i
                } else if k < i {
                    k
                } else {
                    k + 1
                }, other, at));
            }
        }
    }
}

/// Remembering a decision keeps the memo well-formed. With room for at least
/// one entry the decision can be read back; every other key keeps its
/// decision or, if it was the least recently used one, may have left.
pub proof fn lemma_put(
    cache: CacheView,
    subject: Seq<char>,
    snapshot: u64,
    visible: bool,
    other: Seq<char>,
    at: u64,
)
    requires
        cache.wf(),
    ensures
        cache.put(subject, snapshot, visible).wf(),
        cache.put(subject, snapshot, visible).capacity == cache.capacity,
        cache.capacity > 0 ==> cache.put(subject, snapshot, visible).get(subject, snapshot) == Some(
            visible,
        ),
        !(other == subject && at == snapshot) ==> cache.put(subject, snapshot, visible).get(other, at)
            == cache.get(other, at) || (cache.put(subject, snapshot, visible).get(other, at) is None
            && cache.holds(0, other, at) && cache.entries.len() == cache.capacity && cache.get(
            subject,
            snapshot,
        ) is None),
{
    let after = cache.put(subject, snapshot, visible);
    if cache.capacity > 0 {
        let last = after.entries.len() - 1;
        assert(after.holds(last, subject, snapshot));
        match cache.index_of(subject, snapshot) {
            Some(i) => {
                assert forall|k: int| 0 <= k < last implies after.entries[k] == cache.entries[if k
                    < i {
                    k
                } else {
                    k + 1
                }] by {}
                lemma_index_is_unique(cache, i, subject, snapshot);
                assert forall|a: int, b: int| 0 <= a < b < after.entries.len() implies !(
                after.entries[a].subject == after.entries[b].subject && after.entries[a].snapshot
                    == after.entries[b].snapshot) by {
                    let a0 = if a < i { a } else { a + 1 };
                    if b == last {
                        if after.entries[a].subject == subject && after.entries[a].snapshot == snapshot {
                            assert(cache.holds(a0, subject, snapshot));
                            lemma_index_is_unique(cache, a0, subject, snapshot);
                        }
                    }
                }
                lemma_index_is_unique(after, last, subject, snapshot);
                if !(other == subject && at == snapshot) {
                    if let Some(j) = cache.index_of(other, at) {
                        let moved = if j < i { j } else { j - 1 };
                        assert(after.holds(moved, other, at));
                        lemma_index_is_unique(after, moved, other, at);
                    } else {
                        if let Some(k) = after.index_of(other, at) {
                            assert(cache.holds(if k < i { k } else { k + 1 }, other, at));
                        }
                    }
                }
            },
            None => {
                let shift: int = if cache.entries.len() >= cache.capacity { 1 } else { 0 };
                assert forall|k: int| 0 <= k < last implies after.entries[k] == cache.entries[k
                    + shift] by {}
                assert forall|a: int, b: int| 0 <= a < b < after.entries.len() implies !(
                after.entries[a].subject == after.entries[b].subject && after.entries[a].snapshot
                    == after.entries[b].snapshot) by {
                    if b == last {
                        if after.entries[a].subject == subject && after.entries[a].snapshot == snapshot {
                            assert(cache.holds(a + shift, subject, snapshot));
                        }
                    }
                }
                lemma_index_is_unique(after, last, subject, snapshot);
                if !(other == subject && at == snapshot) {
                    if let Some(j) = cache.index_of(other, at) {
                        lemma_index_is_unique(cache, j, other, at);
                        if j - shift >= 0 {
                            assert(after.holds(j - shift, other, at));
                            lemma_index_is_unique(after, j - shift, other, at);
                        } else {
                            if let Some(k) = after.index_of(other, at) {
                                assert(cache.holds(k + shift, other, at));
                                lemma_index_is_unique(cache, k + shift, other, at);
                            }
                        }
                    } else {
                        if let Some(k) = after.index_of(other, at) {
                            assert(cache.holds(k + shift, other, at));
                        }
                    }
                }
            },
        }
    }
}

/// The bounded memo of visibility decisions, by subject and snapshot.
pub struct VisibilityCache {
    capacity: usize,
    entries: Vec<CacheEntry>,
}

impl View for VisibilityCache {
    type V = CacheView;

    closed spec fn view(&self) -> CacheView {
        CacheView { capacity: self.capacity as nat, entries: self.entries.deep_view() }
    }
}

impl VisibilityCache {
    #[verifier::type_invariant]
    pub(crate) open spec fn well_formed(self) -> bool {
        self@.wf()
    }

    /// An empty memo that holds up to `capacity` decisions.
    pub fn new(capacity: usize) -> (cache: Self)
        ensures
            cache@.wf(),
            cache@.capacity == capacity,
            cache@.entries == Seq::<EntryView>::empty(),
    {
        let cache = VisibilityCache { capacity, entries: Vec::new() };
        assert(cache.entries.deep_view() =~= Seq::empty());
        cache
    }

    /// How many decisions the memo holds at most.
    pub fn capacity(&self) -> (capacity: usize)
        ensures
            self@.wf(),
            capacity == self@.capacity,
    {
        proof {
            use_type_invariant(self);
        }
        self.capacity
    }

    /// How many decisions the memo holds.
    pub fn len(&self) -> (len: usize)
        ensures
            self@.wf(),
            len == self@.entries.len(),
    {
        proof {
            use_type_invariant(self);
        }
        self.entries.len()
    }

    fn find(entries: &Vec<CacheEntry>, subject: &str, snapshot: u64) -> (found: Option<usize>)
        ensures
            match found {
                Some(i) => i < entries.len() && entries[i as int].subject@ == subject@
                    && entries[i as int].snapshot == snapshot,
                None => forall|k: int|
                    0 <= k < entries.len() ==> !(entries[k].subject@ == subject@
                        && entries[k].snapshot == snapshot),
            },
    {
        let mut i: usize = 0;
        while i < entries.len()
            invariant
                i <= entries.len(),
                forall|k: int|
                    0 <= k < i ==> !(entries[k].subject@ == subject@ && entries[k].snapshot
                        == snapshot),
            decreases entries.len() - i,
        {
            if entries[i].snapshot == snapshot && str_eq(entries[i].subject.as_str(), subject) {
                return Some(i);
            }
            i += 1;
        }
        None
    }

    /// Looks a decision up. A hit counts as a use of the entry.
    pub fn get(&mut self, subject: &str, snapshot: u64) -> (visible: Option<bool>)
        ensures
            old(self)@.wf(),
            final(self)@.wf(),
            visible == old(self)@.get(subject@, snapshot),
            final(self)@ == old(self)@.touch(subject@, snapshot),
    {
        proof {
            use_type_invariant(&*self);
        }
        let ghost before = self@;
        let mut entries = Vec::new();
        std::mem::swap(&mut entries, &mut self.entries);
        let found = Self::find(&entries, subject, snapshot);
        let visible = match found {
            Some(i) => {
                proof {
                    assert(before.holds(i as int, subject@, snapshot));
                    lemma_index_is_unique(before, i as int, subject@, snapshot);
                    lemma_touch(before, subject@, snapshot, subject@, snapshot);
                }
                let entry = entries.remove(i);
                let visible = entry.visible;
                entries.push(entry);
                assert(entries.deep_view() =~= before.touch(subject@, snapshot).entries);
                Some(visible)
            },
            None => {
                proof {
                    if let Some(k) = before.index_of(subject@, snapshot) {
                        assert(before.holds(k, subject@, snapshot));
                    }
                }
                None
            },
        };
        self.entries = entries;
        visible
    }

    /// Remembers a decision.
    pub fn insert(&mut self, subject: &str, snapshot: u64, visible: bool)
        ensures
            old(self)@.wf(),
            final(self)@.wf(),
            final(self)@ == old(self)@.put(subject@, snapshot, visible),
    {
        proof {
            use_type_invariant(&*self);
        }
        if self.capacity == 0 {
            return ;
        }
        let ghost before = self@;
        proof {
            lemma_put(before, subject@, snapshot, visible, subject@, snapshot);
        }
        let mut entries = Vec::new();
        std::mem::swap(&mut entries, &mut self.entries);
        match Self::find(&entries, subject, snapshot) {
            Some(i) => {
                proof {
                    assert(before.holds(i as int, subject@, snapshot));
                    lemma_index_is_unique(before, i as int, subject@, snapshot);
                }
                entries.remove(i);
            },
            None => {
                proof {
                    if let Some(k) = before.index_of(subject@, snapshot) {
                        assert(before.holds(k, subject@, snapshot));
                    }
                }
                if entries.len() >= self.capacity {
                    entries.remove(0);
                    assert(entries.deep_view() =~= before.entries.drop_first());
                }
            },
        }
        entries.push(CacheEntry { subject: subject.to_owned(), snapshot, visible });
        assert(entries.deep_view() =~= before.put(subject@, snapshot, visible).entries);
        self.entries = entries;
    }
}

} // verus!
