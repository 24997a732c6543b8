//! A table from names to values, in which a later entry for a name replaces
//! the earlier one.
use crate::text::str_eq;
use vstd::prelude::*;
use vstd::string::*;

verus! {

/// The map that a list of entries stands for: each entry in turn is written
/// into the map, so the last entry for a name is the one that counts.
pub open spec fn entries_map<V: View>(entries: Seq<(String, V)>) -> Map<Seq<char>, V::V>
    decreases entries.len(),
{
    if entries.len() == 0 {
        Map::empty()
    } else {
        entries_map(entries.drop_last()).insert(entries.last().0@, entries.last().1@)
    }
}

/// A table from names to values.
pub struct Table<V> {
    entries: Vec<(String, V)>,
}

impl<V: View> Table<V> {
    /// The map that the table stands for.
    pub closed spec fn map(&self) -> Map<Seq<char>, V::V> {
        entries_map(self.entries@)
    }

    /// The empty table.
    pub fn new() -> (t: Self)
        ensures
            t.map() == Map::<Seq<char>, V::V>::empty(),
    {
        Table { entries: Vec::new() }
    }

    /// Writes `value` under `key`; an earlier value under `key` is replaced.
    pub fn insert(&mut self, key: String, value: V)
        ensures
            final(self).map() == old(self).map().insert(key@, value@),
    {
        let ghost before = self.entries@;
        self.entries.push((key, value));
        assert(self.entries@.drop_last() =~= before);
    }

    /// The value under `key`, if there is one.
    pub fn get(&self, key: &str) -> (r: Option<&V>)
        ensures
            match r {
                Some(v) => self.map().contains_key(key@) && v@ == self.map()[key@],
                None => !self.map().contains_key(key@),
            },
    {
        let mut i: usize = self.entries.len();
        assert(self.entries@.subrange(0, i as int) =~= self.entries@);
        while i > 0
            invariant
                i <= self.entries.len(),
                self.map().contains_key(key@) == entries_map(
                    self.entries@.subrange(0, i as int),
                ).contains_key(key@),
                self.map().contains_key(key@) ==> self.map()[key@] == entries_map(
                    self.entries@.subrange(0, i as int),
                )[key@],
            decreases i,
        {
            let ghost taken = self.entries@.subrange(0, i as int);
            assert(taken.drop_last() =~= self.entries@.subrange(0, i - 1));
            assert(taken.last() == self.entries@[i - 1]);
            i -= 1;
            if str_eq(self.entries[i].0.as_str(), key) {
                return Some(&self.entries[i].1);
            }
        }
        None
    }
}

} // verus!
