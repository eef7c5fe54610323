use vstd::prelude::*;

use crate::component::{Component, ComponentKind, ComponentValue};

verus! {

/// One stored component and the entity that owns it.
pub struct StoredComponent {
    pub owner: u32,
    pub value: ComponentValue,
}

impl StoredComponent {
    pub open spec fn key(self) -> (ComponentKind, u32) {
        (self.value.spec_kind(), self.owner)
    }
}

/// What a sequence of slots holds: a later slot under a key shadows earlier ones.
pub open spec fn map_of(slots: Seq<StoredComponent>) -> Map<(ComponentKind, u32), ComponentValue>
    decreases slots.len(),
{
    if slots.len() == 0 {
        Map::empty()
    } else {
        map_of(slots.drop_last()).insert(slots.last().key(), slots.last().value)
    }
}

proof fn lemma_last_slot_wins(slots: Seq<StoredComponent>, i: int)
    requires
        0 <= i < slots.len(),
        forall|j: int| i < j < slots.len() ==> slots[j].key() != slots[i].key(),
    ensures
        map_of(slots).contains_key(slots[i].key()),
        map_of(slots)[slots[i].key()] == slots[i].value,
    decreases slots.len(),
{
    if i < slots.len() - 1 {
        let rest = slots.drop_last();
        assert forall|j: int| i < j < rest.len() implies rest[j].key() != rest[i].key() by {
            assert(rest[j] == slots[j]);
        }
        lemma_last_slot_wins(rest, i);
    }
}

proof fn lemma_absent_key(slots: Seq<StoredComponent>, key: (ComponentKind, u32))
    requires
        forall|j: int| 0 <= j < slots.len() ==> slots[j].key() != key,
    ensures
        !map_of(slots).contains_key(key),
    decreases slots.len(),
{
    if slots.len() > 0 {
        let rest = slots.drop_last();
        assert forall|j: int| 0 <= j < rest.len() implies rest[j].key() != key by {
            assert(rest[j] == slots[j]);
        }
        lemma_absent_key(rest, key);
    }
}

proof fn lemma_replace_last_slot(slots: Seq<StoredComponent>, i: int, s: StoredComponent)
    requires
        0 <= i < slots.len(),
        s.key() == slots[i].key(),
        forall|j: int| i < j < slots.len() ==> slots[j].key() != slots[i].key(),
    ensures
        map_of(slots.update(i, s)) == map_of(slots).insert(s.key(), s.value),
    decreases slots.len(),
{
    let after = slots.update(i, s);
    if i == slots.len() - 1 {
        assert(after.drop_last() == slots.drop_last());
        assert(map_of(after) =~= map_of(slots).insert(s.key(), s.value));
    } else {
        let rest = slots.drop_last();
        assert forall|j: int| i < j < rest.len() implies rest[j].key() != rest[i].key() by {
            assert(rest[j] == slots[j]);
        }
        lemma_replace_last_slot(rest, i, s);
        assert(after.drop_last() == rest.update(i, s));
        assert(map_of(after) =~= map_of(slots).insert(s.key(), s.value));
    }
}

/// Owned, type-erased components, reachable only through the pair
/// (component type, entity id).
pub struct ComponentStore {
    slots: Vec<StoredComponent>,
}

impl ComponentStore {
    /// What the store holds, as a map from (type tag, entity id) to the value.
    pub closed spec fn view(self) -> Map<(ComponentKind, u32), ComponentValue> {
        map_of(self.slots@)
    }

    /// Every stored value sits under its own type's tag.
    pub proof fn lemma_tags_match(self, key: (ComponentKind, u32))
        requires
            self@.contains_key(key),
        ensures
            self@[key].spec_kind() == key.0,
    {
        lemma_map_tags(self.slots@, key);
    }

    pub fn new() -> (s: ComponentStore)
        ensures
            s@ == Map::<(ComponentKind, u32), ComponentValue>::empty(),
    {
        ComponentStore { slots: Vec::new() }
    }

    /// The slot that decides what the store holds under `(kind, id)`.
    fn find(&self, kind: ComponentKind, id: u32) -> (r: Option<usize>)
        ensures
            match r {
                Some(i) => {
                    &&& i < self.slots@.len()
                    &&& self.slots@[i as int].key() == (kind, id)
                    &&& forall|j: int|
                        i < j < self.slots@.len() ==> self.slots@[j].key() != (kind, id)
                },
                None => !self@.contains_key((kind, id)),
            },
    {
        let mut i: usize = self.slots.len();
        while i > 0
            invariant
                i <= self.slots@.len(),
                forall|j: int| i <= j < self.slots@.len() ==> self.slots@[j].key() != (kind, id),
            decreases i,
        {
            let slot = &self.slots[i - 1];
            if slot.owner == id && slot.value.kind() == kind {
                return Some(i - 1);
            }
            i -= 1;
        }
        proof {
            lemma_absent_key(self.slots@, (kind, id));
        }
        None
    }

    /// Whether something is stored under `(kind, id)`.
    pub fn contains(&self, kind: ComponentKind, id: u32) -> (r: bool)
        ensures
            r == self@.contains_key((kind, id)),
    {
        match self.find(kind, id) {
            Some(i) => {
                proof {
                    lemma_last_slot_wins(self.slots@, i as int);
                }
                true
            },
            None => false,
        }
    }

    /// Stores `value` for entity `id`, replacing what was there under the same type.
    pub fn insert(&mut self, id: u32, value: ComponentValue)
        ensures
            final(self)@ == old(self)@.insert((value.spec_kind(), id), value),
    {
        let kind = value.kind();
        let slot = StoredComponent { owner: id, value };
        match self.find(kind, id) {
            Some(i) => {
                proof {
                    lemma_replace_last_slot(self.slots@, i as int, slot);
                }
                self.slots.set(i, slot);
            },
            None => {
                self.slots.push(slot);
                proof {
                    assert(self.slots@.drop_last() == old(self).slots@);
                }
            },
        }
    }

    /// The value stored for `id` under tag `kind`, if any.
    pub fn get(&self, kind: ComponentKind, id: u32) -> (r: Option<&ComponentValue>)
        ensures
            match r {
                Some(v) => self@.contains_key((kind, id)) && *v == self@[(kind, id)],
                None => !self@.contains_key((kind, id)),
            },
    {
        match self.find(kind, id) {
            Some(i) => {
                proof {
                    lemma_last_slot_wins(self.slots@, i as int);
                }
                Some(&self.slots[i].value)
            },
            None => None,
        }
    }

    /// The `T` stored for `id`, for reading and writing in place.
    pub fn get_mut<T: Component>(&mut self, id: u32) -> (r: Option<&mut T>)
        ensures
            match r {
                Some(c) => {
                    &&& old(self)@.contains_key((T::type_kind(), id))
                    &&& T::recover(old(self)@[(T::type_kind(), id)]) == Some(*c)
                    &&& final(self)@ == old(self)@.insert((T::type_kind(), id), (*final(c)).erase())
                },
                None => !old(self)@.contains_key((T::type_kind(), id)) && final(self)@ == old(
                    self,
                )@,
            },
    {
        let kind = T::kind();
        match self.find(kind, id) {
            Some(i) => {
                proof {
                    lemma_last_slot_wins(self.slots@, i as int);
                    T::lemma_recover(self.slots@[i as int].value);
                    assert forall|t: T| #[trigger] t.erase().spec_kind() == kind by {
                        t.lemma_erase();
                    }
                    let slots = self.slots@;
                    assert forall|s: StoredComponent|
                        s.key() == (kind, id) implies #[trigger] map_of(slots.update(i as int, s))
                        == map_of(slots).insert(s.key(), s.value) by {
                        lemma_replace_last_slot(slots, i as int, s);
                    }
                }
                let slot = &mut self.slots[i];
                T::downcast_mut(&mut slot.value)
            },
            None => None,
        }
    }
}

proof fn lemma_map_tags(slots: Seq<StoredComponent>, key: (ComponentKind, u32))
    requires
        map_of(slots).contains_key(key),
    ensures
        map_of(slots)[key].spec_kind() == key.0,
    decreases slots.len(),
{
    if slots.len() > 0 && slots.last().key() != key {
        lemma_map_tags(slots.drop_last(), key);
    }
}

} // verus!
