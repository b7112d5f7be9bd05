//! A map from document node ids to per-node state.
use vstd::prelude::*;

verus! {

/// Per-node state in registration order. No id occurs twice.
#[derive(Debug)]
pub struct Registry<T> {
    entries: Vec<(usize, T)>,
}

/// Whether no id occurs twice among `entries`.
pub open spec fn distinct_ids<T>(entries: Seq<(usize, T)>) -> bool {
    forall|i: int, j: int|
        0 <= i < j < entries.len() ==> (#[trigger] entries[i]).0 != (#[trigger] entries[j]).0
}

/// Whether some entry has the id `id`.
pub open spec fn has_id<T>(entries: Seq<(usize, T)>, id: usize) -> bool {
    exists|i: int| 0 <= i < entries.len() && (#[trigger] entries[i]).0 == id
}

/// The position of the entry with the id `id`.
pub open spec fn slot_of<T>(entries: Seq<(usize, T)>, id: usize) -> int {
    choose|i: int| 0 <= i < entries.len() && (#[trigger] entries[i]).0 == id
}

/// The state registered for `id`.
pub open spec fn lookup<T>(entries: Seq<(usize, T)>, id: usize) -> Option<T> {
    if has_id(entries, id) {
        Some(entries[slot_of(entries, id)].1)
    } else {
        None
    }
}

/// In entries without repeated ids, an entry is found under its id.
pub proof fn lemma_lookup_at<T>(entries: Seq<(usize, T)>, slot: int)
    requires
        distinct_ids(entries),
        0 <= slot < entries.len(),
    ensures
        has_id(entries, entries[slot].0),
        slot_of(entries, entries[slot].0) == slot,
        lookup(entries, entries[slot].0) == Some(entries[slot].1),
{
    let id = entries[slot].0;
    assert(entries[slot].0 == id);
    let found = slot_of(entries, id);
    assert(0 <= found < entries.len() && entries[found].0 == id);
    if found < slot {
        assert(entries[found].0 != entries[slot].0);
    } else if slot < found {
        assert(entries[slot].0 != entries[found].0);
    }
}

/// Whether two registries hold the same ids in the same order, and differ at
/// most in the state of `id`.
pub open spec fn changed_only<T>(
    before: Seq<(usize, T)>,
    after: Seq<(usize, T)>,
    id: usize,
) -> bool {
    &&& before.len() == after.len()
    &&& forall|i: int|
        0 <= i < before.len() ==> (#[trigger] after[i]).0 == before[i].0 && (before[i].0 != id
            ==> after[i] == before[i])
}

/// A registry that differs from another in the state of `id` alone has the
/// same state for every other id.
pub proof fn changed_only_keeps_others<T>(
    before: Seq<(usize, T)>,
    after: Seq<(usize, T)>,
    id: usize,
    other: usize,
)
    requires
        distinct_ids(before),
        changed_only(before, after, id),
        other != id,
    ensures
        distinct_ids(after),
        lookup(after, other) == lookup(before, other),
        has_id(after, id) == has_id(before, id),
{
    assert forall|i: int, j: int| 0 <= i < j < after.len() implies (#[trigger] after[i]).0 != (
    #[trigger] after[j]).0 by {
        assert(before[i].0 != before[j].0);
    }
    if has_id(before, other) {
        let slot = slot_of(before, other);
        assert(after[slot] == before[slot]);
        lemma_lookup_at(after, slot);
    } else if has_id(after, other) {
        let slot = slot_of(after, other);
        assert(before[slot].0 == other);
    }
    if has_id(before, id) {
        assert(after[slot_of(before, id)].0 == id);
    }
    if has_id(after, id) {
        assert(before[slot_of(after, id)].0 == id);
    }
}

impl<T> View for Registry<T> {
    type V = Seq<(usize, T)>;

    closed spec fn view(&self) -> Seq<(usize, T)> {
        self.entries@
    }
}

impl<T> Registry<T> {
    /// No id is registered twice.
    pub open spec fn wf(&self) -> bool {
        distinct_ids(self@)
    }

    /// The state registered for `id`.
    pub open spec fn at(&self, id: usize) -> Option<T> {
        lookup(self@, id)
    }

    /// An empty registry.
    pub fn new() -> (registry: Self)
        ensures
            registry.wf(),
            registry@ == Seq::<(usize, T)>::empty(),
    {
        Registry { entries: Vec::new() }
    }

    /// How many nodes are registered.
    pub fn len(&self) -> (count: usize)
        ensures
            count == self@.len(),
    {
        self.entries.len()
    }

    /// The id and state in the slot `slot`.
    pub fn entry(&self, slot: usize) -> (entry: &(usize, T))
        requires
            slot < self@.len(),
        ensures
            *entry == self@[slot as int],
    {
        &self.entries[slot]
    }

    /// The slot of the entry with the id `id`.
    pub fn position(&self, id: usize) -> (slot: Option<usize>)
        requires
            self.wf(),
        ensures
            match slot {
                Some(slot) => slot < self@.len() && self@[slot as int].0 == id && slot_of(self@, id)
                    == slot && self.at(id) == Some(self@[slot as int].1),
                None => self.at(id) is None && !has_id(self@, id),
            },
    {
        let mut i: usize = 0;
        while i < self.entries.len()
            invariant
                self.wf(),
                i <= self.entries.len(),
                forall|k: int| 0 <= k < i ==> (#[trigger] self.entries@[k]).0 != id,
            decreases self.entries.len() - i,
        {
            if self.entries[i].0 == id {
                proof {
                    lemma_lookup_at(self@, i as int);
                }
                return Some(i);
            }
            i += 1;
        }
        None
    }

    /// Whether `id` is registered.
    pub fn contains_key(&self, id: usize) -> (found: bool)
        requires
            self.wf(),
        ensures
            found == self.at(id) is Some,
            found == has_id(self@, id),
    {
        self.position(id).is_some()
    }

    /// The state registered for `id`.
    pub fn get(&self, id: usize) -> (state: Option<&T>)
        requires
            self.wf(),
        ensures
            match state {
                Some(state) => self.at(id) == Some(*state),
                None => self.at(id) is None,
            },
    {
        match self.position(id) {
            Some(slot) => Some(&self.entries[slot].1),
            None => None,
        }
    }

    /// The state in the slot `slot`, for an update in place.
    pub fn state_mut(&mut self, slot: usize) -> (state: &mut T)
        requires
            slot < old(self)@.len(),
        ensures
            *state == old(self)@[slot as int].1,
            final(self)@ == old(self)@.update(
                slot as int,
                (old(self)@[slot as int].0, *final(state)),
            ),
            old(self).wf() ==> final(self).wf() && final(self).at(old(self)@[slot as int].0) == Some(
                *final(state),
            ),
            old(self).wf() ==> changed_only(
                old(self)@,
                final(self)@,
                old(self)@[slot as int].0,
            ),
    {
        proof {
            let ghost id = self@[slot as int].0;
            assert forall|state: T| self.wf() implies distinct_ids(
                #[trigger] self@.update(slot as int, (id, state)),
            ) && lookup(self@.update(slot as int, (id, state)), id) == Some(state) by {
                let after = self@.update(slot as int, (id, state));
                assert forall|i: int, j: int| 0 <= i < j < after.len() implies (
                #[trigger] after[i]).0 != (#[trigger] after[j]).0 by {
                    assert(self@[i].0 != self@[j].0);
                }
                lemma_lookup_at(after, slot as int);
            }
        }
        &mut self.entries[slot].1
    }

    /// Registers `state` for `id`. A state already registered for `id` is
    /// replaced where it stands; a new id comes last.
    pub fn insert(&mut self, id: usize, state: T)
        requires
            old(self).wf(),
        ensures
            final(self).wf(),
            final(self).at(id) == Some(state),
            final(self)@ == (if has_id(old(self)@, id) {
                old(self)@.update(slot_of(old(self)@, id), (id, state))
            } else {
                old(self)@.push((id, state))
            }),
            forall|other: usize| other != id ==> final(self).at(other) == old(self).at(other),
    {
        match self.position(id) {
            Some(slot) => {
                self.entries.set(slot, (id, state));
            },
            None => {
                self.entries.push((id, state));
            },
        }
        proof {
            let slot = if has_id(old(self)@, id) {
                slot_of(old(self)@, id)
            } else {
                old(self)@.len() as int
            };
            assert(self@[slot] == (id, state));
            lemma_lookup_at(self@, slot);
            assert forall|other: usize| other != id implies self.at(other) == old(self).at(
                other,
            ) by {
                lemma_same_lookup(old(self)@, self@, slot, other);
            }
        }
    }

    /// Drops the state registered for `id` and hands it out.
    pub fn remove(&mut self, id: usize) -> (removed: Option<T>)
        requires
            old(self).wf(),
        ensures
            final(self).wf(),
            removed == old(self).at(id),
            final(self).at(id) is None,
            final(self)@ == (if has_id(old(self)@, id) {
                old(self)@.remove(slot_of(old(self)@, id))
            } else {
                old(self)@
            }),
            forall|other: usize| other != id ==> final(self).at(other) == old(self).at(other),
    {
        match self.position(id) {
            Some(slot) => {
                let (_, state) = self.entries.remove(slot);
                proof {
                    lemma_remove(old(self)@, slot as int);
                }
                Some(state)
            },
            None => None,
        }
    }
}

/// Entries that differ in one slot only, which never held `other`, agree on
/// `other`.
proof fn lemma_same_lookup<T>(
    before: Seq<(usize, T)>,
    after: Seq<(usize, T)>,
    slot: int,
    other: usize,
)
    requires
        distinct_ids(before),
        distinct_ids(after),
        0 <= slot < after.len(),
        after.len() == before.len() || (after.len() == before.len() + 1 && slot == before.len()),
        after[slot].0 != other,
        slot < before.len() ==> before[slot].0 != other,
        forall|i: int| 0 <= i < before.len() && i != slot ==> after[i] == before[i],
    ensures
        lookup(after, other) == lookup(before, other),
{
    if has_id(before, other) {
        let found = slot_of(before, other);
        assert(after[found] == before[found]);
        lemma_lookup_at(after, found);
    } else if has_id(after, other) {
        let found = slot_of(after, other);
        assert(before[found] == after[found]);
        assert(false);
    }
}

/// Removing one slot forgets its id and no other.
pub proof fn lemma_remove<T>(entries: Seq<(usize, T)>, slot: int)
    requires
        distinct_ids(entries),
        0 <= slot < entries.len(),
    ensures
        distinct_ids(entries.remove(slot)),
        !has_id(entries.remove(slot), entries[slot].0),
        forall|other: usize|
            other != entries[slot].0 ==> lookup(entries.remove(slot), other) == lookup(
                entries,
                other,
            ),
{
    let rest = entries.remove(slot);
    assert forall|i: int, j: int| 0 <= i < j < rest.len() implies (#[trigger] rest[i]).0 != (
    #[trigger] rest[j]).0 by {
        let a = if i < slot { i } else { i + 1 };
        let b = if j < slot { j } else { j + 1 };
        assert(rest[i] == entries[a] && rest[j] == entries[b]);
    }
    assert forall|i: int| 0 <= i < rest.len() implies (#[trigger] rest[i]).0
        != entries[slot].0 by {
        let a = if i < slot { i } else { i + 1 };
        assert(rest[i] == entries[a]);
    }
    assert forall|other: usize| other != entries[slot].0 implies lookup(rest, other) == lookup(
        entries,
        other,
    ) by {
        if has_id(entries, other) {
            let found = slot_of(entries, other);
            let moved = if found < slot { found } else { found - 1 };
            assert(rest[moved] == entries[found]);
            lemma_lookup_at(rest, moved);
        } else if has_id(rest, other) {
            let found = slot_of(rest, other);
            let a = if found < slot { found } else { found + 1 };
            assert(rest[found] == entries[a]);
            assert(false);
        }
    }
}

} // verus!
