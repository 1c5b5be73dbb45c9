//! A table from names to entries.

use crate::text::same_text;
use vstd::prelude::*;

verus! {

/// A table from names to entries. A name has at most one entry: a second
/// entry under a name takes the place of the first.
pub struct Table<T> {
    entries: Vec<(String, T)>,
}

/// The map that a list of named entries stands for: later entries win.
pub open spec fn map_of<T>(entries: Seq<(String, T)>) -> Map<Seq<char>, T>
    decreases entries.len(),
{
    if entries.len() == 0 {
        Map::empty()
    } else {
        map_of(entries.drop_last()).insert(entries.last().0@, entries.last().1)
    }
}

impl<T> View for Table<T> {
    type V = Map<Seq<char>, T>;

    closed spec fn view(&self) -> Map<Seq<char>, T> {
        map_of(self.entries@)
    }
}

impl<T> Table<T> {
    /// The table without entries.
    pub fn new() -> (r: Table<T>)
        ensures
            r@ == Map::<Seq<char>, T>::empty(),
    {
        Table { entries: Vec::new() }
    }

    /// Puts `entry` under `name`.
    pub fn insert(&mut self, name: &str, entry: T)
        ensures
            final(self)@ == old(self)@.insert(name@, entry),
    {
        self.entries.push((name.to_owned(), entry));
        assert(self.entries@.drop_last() =~= old(self).entries@);
    }

    /// The entry under `name`, if there is one.
    pub fn get(&self, name: &str) -> (r: Option<&T>)
        ensures
            match r {
                Some(entry) => self@.contains_key(name@) && self@[name@] == *entry,
                None => !self@.contains_key(name@),
            },
    {
        let mut i: usize = self.entries.len();
        assert(self.entries@.take(i as int) =~= self.entries@);
        while i > 0
            invariant
                i <= self.entries.len(),
                map_of(self.entries@.take(i as int)).contains_key(name@) == self@.contains_key(
                    name@,
                ),
                self@.contains_key(name@) ==> map_of(self.entries@.take(i as int))[name@]
                    == self@[name@],
            decreases i,
        {
            i -= 1;
            assert(self.entries@.take(i + 1).drop_last() =~= self.entries@.take(i as int));
            if same_text(self.entries[i].0.as_str(), name) {
                return Some(&self.entries[i].1);
            }
        }
        None
    }
}

} // verus!
