//! A small map from names to values that remembers the order of insertion.

use vstd::prelude::*;
use vstd::string::*;

verus! {

/// Whether some entry of `entries` goes by `name`.
pub open spec fn has_name<V>(entries: Seq<(Seq<char>, V)>, name: Seq<char>) -> bool {
    exists|i: int| 0 <= i < entries.len() && (#[trigger] entries[i]).0 == name
}

/// Whether no two entries of `entries` go by the same name.
pub open spec fn distinct_names<V>(entries: Seq<(Seq<char>, V)>) -> bool {
    forall|i: int, j: int|
        0 <= i < j < entries.len() ==> (#[trigger] entries[i]).0 != (#[trigger] entries[j]).0
}

/// Stored entries with their names as sequences of characters.
pub open spec fn named<V>(entries: Seq<(String, V)>) -> Seq<(Seq<char>, V)> {
    Seq::new(entries.len(), |i: int| (entries[i].0@, entries[i].1))
}

/// Values by name, in the order in which the names were first inserted. No
/// name occurs twice.
#[derive(Debug)]
pub struct Table<V> {
    entries: Vec<(String, V)>,
}

impl<V> Table<V> {
    /// The entries in order, each a name and its value.
    pub closed spec fn view(&self) -> Seq<(Seq<char>, V)> {
        named(self.entries@)
    }

    /// What holds of every table: no name occurs twice.
    #[verifier::type_invariant]
    pub open spec fn well_formed(&self) -> bool {
        distinct_names(self@)
    }

    /// A table without entries.
    pub fn new() -> (table: Self)
        ensures
            table@ == Seq::<(Seq<char>, V)>::empty(),
    {
        let table = Table { entries: Vec::new() };
        assert(table@ =~= Seq::<(Seq<char>, V)>::empty());
        table
    }

    /// The number of entries.
    pub fn len(&self) -> (n: usize)
        ensures
            n == self@.len(),
    {
        self.entries.len()
    }

    /// The name of the entry at `i`.
    pub fn name(&self, i: usize) -> (name: &String)
        requires
            i < self@.len(),
        ensures
            name@ == self@[i as int].0,
    {
        &self.entries[i].0
    }

    /// The value of the entry at `i`.
    pub fn value(&self, i: usize) -> (value: &V)
        requires
            i < self@.len(),
        ensures
            *value == self@[i as int].1,
    {
        &self.entries[i].1
    }

    /// The place of the entry that goes by `name`, or the number of entries
    /// if there is none.
    pub fn find(&self, name: &str) -> (at: usize)
        ensures
            at <= self@.len(),
            at < self@.len() ==> self@[at as int].0 == name@,
            at == self@.len() ==> !has_name(self@, name@),
    {
        let wanted = name.to_owned();
        let mut at: usize = 0;
        while at < self.entries.len()
            invariant
                at <= self.entries@.len(),
                wanted@ == name@,
                forall|k: int| 0 <= k < at ==> (#[trigger] self@[k]).0 != name@,
            decreases self.entries@.len() - at,
        {
            if self.entries[at].0 == wanted {
                return at;
            }
            at += 1;
        }
        at
    }

    /// Puts `value` under `name`. A value that stood there before is
    /// replaced, in its place, and returned; a new name goes to the end.
    pub fn insert(&mut self, name: String, value: V) -> (previous: Option<V>)
        ensures
            match previous {
                Some(replaced) => exists|i: int|
                    0 <= i < old(self)@.len() && #[trigger] old(self)@[i] == (name@, replaced)
                        && final(self)@ == old(self)@.update(i, (name@, value)),
                None => !has_name(old(self)@, name@) && final(self)@ == old(self)@.push(
                    (name@, value),
                ),
            },
    {
        proof {
            use_type_invariant(&*self);
        }
        let at = self.find(name.as_str());
        let mut entries: Vec<(String, V)> = Vec::new();
        core::mem::swap(&mut self.entries, &mut entries);
        if at < entries.len() {
            let (_, replaced) = entries.remove(at);
            entries.insert(at, (name, value));
            assert(named(entries@) =~= old(self)@.update(at as int, (name@, value)));
            assert(old(self)@[at as int] == (name@, replaced));
            self.entries = entries;
            Some(replaced)
        } else {
            entries.push((name, value));
            assert(named(entries@) =~= old(self)@.push((name@, value)));
            self.entries = entries;
            None
        }
    }

    /// Takes the entry that goes by `name` out of the table and returns its
    /// value; the other entries keep their order.
    pub fn remove(&mut self, name: &str) -> (taken: Option<V>)
        ensures
            match taken {
                Some(value) => exists|i: int|
                    0 <= i < old(self)@.len() && #[trigger] old(self)@[i] == (name@, value)
                        && final(self)@ == old(self)@.remove(i),
                None => !has_name(old(self)@, name@) && final(self)@ == old(self)@,
            },
    {
        proof {
            use_type_invariant(&*self);
        }
        let at = self.find(name);
        if at < self.entries.len() {
            let mut entries: Vec<(String, V)> = Vec::new();
            core::mem::swap(&mut self.entries, &mut entries);
            let (_, value) = entries.remove(at);
            assert(named(entries@) =~= old(self)@.remove(at as int));
            assert(old(self)@[at as int] == (name@, value));
            self.entries = entries;
            Some(value)
        } else {
            None
        }
    }
}

} // verus!
