//! A small table of values by name.

use vstd::prelude::*;
use crate::text::str_eq;

verus! {

/// Values by name, in the order they were set. A later entry for a name
/// replaces an earlier one.
#[derive(Clone, Debug, PartialEq, Eq)]
pub struct Table<V> {
    pub entries: Vec<(String, V)>,
}

/// The map that a list of entries stands for.
pub open spec fn table_of<W>(entries: Seq<(Seq<char>, W)>) -> Map<Seq<char>, W>
    decreases entries.len(),
{
    if entries.len() == 0 {
        Map::empty()
    } else {
        table_of(entries.drop_last()).insert(entries.last().0, entries.last().1)
    }
}

/// The value that a map holds for a name, if it holds one.
pub open spec fn value_in<W>(table: Map<Seq<char>, W>, name: Seq<char>) -> Option<W> {
    if table.contains_key(name) {
        Some(table[name])
    } else {
        None
    }
}

impl<V: DeepView> View for Table<V> {
    type V = Map<Seq<char>, V::V>;

    open spec fn view(&self) -> Map<Seq<char>, V::V> {
        table_of(self.entries.deep_view())
    }
}

impl<V: DeepView> Table<V> {
    /// The empty table.
    pub fn new() -> (table: Self)
        ensures
            table@ == Map::<Seq<char>, V::V>::empty(),
    {
        let table = Table { entries: Vec::new() };
        assert(table.entries.deep_view() =~= Seq::empty());
        table
    }

    /// Sets the value for `name`.
    pub fn set(&mut self, name: String, value: V)
        ensures
            final(self)@ == old(self)@.insert(name@, value.deep_view()),
    {
        self.entries.push((name, value));
        proof {
            let now = self.entries.deep_view();
            assert(now.drop_last() =~= old(self).entries.deep_view());
            assert(now.last() == (name@, value.deep_view()));
        }
    }

    /// The value set for `name`, if there is one.
    pub fn get(&self, name: &str) -> (value: Option<&V>)
        ensures
            match value {
                Some(found) => value_in(self@, name@) == Some(found.deep_view()),
                None => value_in(self@, name@) is None,
            },
    {
        let ghost all = self.entries.deep_view();
        let mut i: usize = self.entries.len();
        assert(all.take(i as int) =~= all);
        while i > 0
            invariant
                i <= self.entries.len(),
                all == self.entries.deep_view(),
                value_in(table_of(all), name@) == value_in(table_of(all.take(i as int)), name@),
            decreases i,
        {
            i -= 1;
            proof {
                let upto = all.take(i as int + 1);
                assert(upto.drop_last() =~= all.take(i as int));
                assert(upto.last() == all[i as int]);
                assert(all[i as int] == (self.entries[i as int].0@, self.entries[i as int].1.deep_view()));
            }
            if str_eq(self.entries[i].0.as_str(), name) {
                return Some(&self.entries[i].1);
            }
        }
        assert(all.take(0) =~= Seq::empty());
        None
    }
}

} // verus!
