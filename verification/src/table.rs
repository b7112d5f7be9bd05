//! A map from strings to values.
use crate::text::same;
use vstd::prelude::*;

verus! {

/// Values by name, in the order the names were first set.
#[derive(Debug)]
pub struct Table<T> {
    entries: Vec<(String, T)>,
}

/// What named entries hold, by name. Where a name occurs twice, the first
/// entry counts.
pub open spec fn by_name<T>(entries: Seq<(String, T)>) -> Map<Seq<char>, T>
    decreases entries.len(),
{
    if entries.len() == 0 {
        Map::empty()
    } else {
        by_name(entries.skip(1)).insert(entries[0].0@, entries[0].1)
    }
}

spec fn absent<T>(entries: Seq<(String, T)>, name: Seq<char>, upto: int) -> bool {
    forall|i: int| 0 <= i < upto ==> (#[trigger] entries[i]).0@ != name
}

proof fn lemma_first<T>(entries: Seq<(String, T)>, name: Seq<char>, at: int)
    requires
        0 <= at <= entries.len(),
        absent(entries, name, at),
        at < entries.len() ==> entries[at].0@ == name,
    ensures
        by_name(entries).dom().contains(name) == (at < entries.len()),
        at < entries.len() ==> by_name(entries)[name] == entries[at].1,
    decreases entries.len(),
{
    if entries.len() > 0 && at > 0 {
        let rest = entries.skip(1);
        assert(entries[0].0@ != name);
        assert forall|i: int| 0 <= i < at - 1 implies (#[trigger] rest[i]).0@ != name by {
            assert(entries[i + 1].0@ != name);
        }
        lemma_first(rest, name, at - 1);
    }
}

proof fn lemma_update<T>(entries: Seq<(String, T)>, at: int, value: T)
    requires
        0 <= at < entries.len(),
        absent(entries, entries[at].0@, at),
    ensures
        by_name(entries.update(at, (entries[at].0, value))) == by_name(entries).insert(
            entries[at].0@,
            value,
        ),
    decreases entries.len(),
{
    let name = entries[at].0@;
    let after = entries.update(at, (entries[at].0, value));
    let rest = entries.skip(1);
    if at == 0 {
        assert(after.skip(1) =~= rest);
    } else {
        assert(after.skip(1) =~= rest.update(at - 1, (rest[at - 1].0, value)));
        assert forall|i: int| 0 <= i < at - 1 implies (#[trigger] rest[i]).0@ != name by {
            assert(entries[i + 1].0@ != name);
        }
        lemma_update(rest, at - 1, value);
        assert(entries[0].0@ != name);
    }
    assert(by_name(after) =~= by_name(entries).insert(name, value));
}

proof fn lemma_push<T>(entries: Seq<(String, T)>, name: String, value: T)
    requires
        absent(entries, name@, entries.len() as int),
    ensures
        by_name(entries.push((name, value))) == by_name(entries).insert(name@, value),
    decreases entries.len(),
{
    let after = entries.push((name, value));
    if entries.len() == 0 {
        assert(after.skip(1) =~= entries);
        assert(after[0] == (name, value));
    } else {
        let rest = entries.skip(1);
        assert(after[0] == entries[0]);
        assert(after.skip(1) =~= rest.push((name, value)));
        assert forall|i: int| 0 <= i < rest.len() implies (#[trigger] rest[i]).0@ != name@ by {
            assert(entries[i + 1].0@ != name@);
        }
        lemma_push(rest, name, value);
        assert(entries[0].0@ != name@);
    }
    assert(by_name(after) =~= by_name(entries).insert(name@, value));
}

impl<T> View for Table<T> {
    type V = Map<Seq<char>, T>;

    closed spec fn view(&self) -> Map<Seq<char>, T> {
        by_name(self.entries@)
    }
}

impl<T> Table<T> {
    /// An empty table.
    pub fn new() -> (table: Self)
        ensures
            table@ == Map::<Seq<char>, T>::empty(),
    {
        Table { entries: Vec::new() }
    }

    fn find(&self, name: &str) -> (found: Option<usize>)
        ensures
            match found {
                Some(at) => at < self.entries@.len() && self.entries@[at as int].0@ == name@
                    && absent(self.entries@, name@, at as int),
                None => absent(self.entries@, name@, self.entries@.len() as int),
            },
    {
        let mut i: usize = 0;
        while i < self.entries.len()
            invariant
                i <= self.entries@.len(),
                absent(self.entries@, name@, i as int),
            decreases self.entries@.len() - i,
        {
            if same(self.entries[i].0.as_str(), name) {
                return Some(i);
            }
            i += 1;
        }
        None
    }

    /// The value set for `name`.
    pub fn get(&self, name: &str) -> (value: Option<&T>)
        ensures
            match value {
                Some(value) => self@.dom().contains(name@) && *value == self@[name@],
                None => !self@.dom().contains(name@),
            },
    {
        match self.find(name) {
            Some(at) => {
                proof {
                    lemma_first(self.entries@, name@, at as int);
                }
                Some(&self.entries[at].1)
            },
            None => {
                proof {
                    lemma_first(self.entries@, name@, self.entries@.len() as int);
                }
                None
            },
        }
    }

    /// Sets the value for `name`, in place of an earlier one.
    pub fn insert(&mut self, name: String, value: T)
        ensures
            final(self)@ == old(self)@.insert(name@, value),
    {
        match self.find(name.as_str()) {
            Some(at) => {
                let ghost before = self.entries@;
                let slot = &mut self.entries[at].1;
                *slot = value;
                proof {
                    assert(self.entries@ =~= before.update(at as int, (before[at as int].0, value)));
                    lemma_update(before, at as int, value);
                }
            },
            None => {
                proof {
                    lemma_push(self.entries@, name, value);
                }
                self.entries.push((name, value));
            },
        }
    }
}

} // verus!
