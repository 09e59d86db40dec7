//! Keyed storage for the entities of a campaign.

use std::marker::PhantomData;
use vstd::prelude::*;

verus! {

/// A typed handle to one slot of an [`Arena`].
pub trait ArenaKey: Copy {
    /// The slot this key names.
    spec fn slot_of(self) -> nat;

    /// Reads the slot number.
    fn slot(self) -> (slot: usize)
        ensures
            slot == self.slot_of(),
    ;

    /// Makes the key of a slot.
    fn from_slot(slot: usize) -> (key: Self)
        ensures
            key.slot_of() == slot,
    ;

    /// Keys of the same slot are the same key.
    proof fn same_slot(a: Self, b: Self)
        requires
            a.slot_of() == b.slot_of(),
        ensures
            a == b,
    ;
}

/// A growing table of entities.
///
/// An entity keeps its key for as long as it lives, and the key of a removed
/// entity is never handed out again, so a stale key finds nothing rather than
/// somebody else. Entities are walked in the order in which they came.
#[verifier::reject_recursive_types(K)]
pub struct Arena<K, T> {
    slots: Vec<Option<T>>,
    kind: PhantomData<K>,
}

impl<K: ArenaKey, T> View for Arena<K, T> {
    type V = Seq<Option<T>>;

    closed spec fn view(&self) -> Seq<Option<T>> {
        self.slots@
    }
}

/// Whether slot `slot` of `slots` holds an entity.
pub open spec fn occupied<T>(slots: Seq<Option<T>>, slot: int) -> bool {
    0 <= slot < slots.len() && slots[slot] is Some
}

impl<K: ArenaKey, T> Arena<K, T> {
    /// Whether `key` names a living entity.
    pub open spec fn has(&self, key: K) -> bool {
        occupied(self@, key.slot_of() as int)
    }

    /// The entity that `key` names.
    pub open spec fn at(&self, key: K) -> T {
        self@[key.slot_of() as int]->0
    }

    /// An arena without entities.
    pub fn new() -> (arena: Self)
        ensures
            arena@ == Seq::<Option<T>>::empty(),
    {
        Arena { slots: Vec::new(), kind: PhantomData }
    }

    /// How many slots were ever handed out.
    pub fn slot_count(&self) -> (count: usize)
        ensures
            count == self@.len(),
    {
        self.slots.len()
    }

    /// How many entities are alive.
    pub fn len(&self) -> (count: usize)
        ensures
            count == living(self@, self@.len()),
    {
        let mut count: usize = 0;
        for i in 0..self.slots.len()
            invariant
                count == living(self@, i as nat),
                count <= i,
                self@ == self.slots@,
        {
            if self.slots[i].is_some() {
                count = count + 1;
            }
        }
        count
    }

    /// The entity in slot `slot`, if it is alive.
    pub fn slot(&self, slot: usize) -> (entity: Option<&T>)
        ensures
            entity is Some <==> occupied(self@, slot as int),
            entity matches Some(e) ==> *e == self@[slot as int]->0,
    {
        if slot < self.slots.len() {
            self.slots[slot].as_ref()
        } else {
            None
        }
    }

    /// The entity that `key` names, if it is alive.
    pub fn get(&self, key: K) -> (entity: Option<&T>)
        ensures
            entity is Some <==> self.has(key),
            entity matches Some(e) ==> *e == self.at(key),
    {
        self.slot(key.slot())
    }

    /// Whether `key` names a living entity.
    pub fn contains_key(&self, key: K) -> (found: bool)
        ensures
            found == self.has(key),
    {
        self.get(key).is_some()
    }

    /// The living entity that `key` names.
    pub fn at_key(&self, key: K) -> (entity: &T)
        requires
            self.has(key),
        ensures
            *entity == self.at(key),
    {
        match self.slot(key.slot()) {
            Some(entity) => entity,
            None => {
                assert(false);
                vstd::pervasive::unreached()
            },
        }
    }

    /// Mutable access to the entity that `key` names, if it is alive.
    pub fn get_mut(&mut self, key: K) -> (entity: Option<&mut T>)
        ensures
            entity is Some <==> old(self).has(key),
            entity matches Some(e) ==> {
                &&& *e == old(self).at(key)
                &&& final(self)@ == old(self)@.update(key.slot_of() as int, Some(*final(e)))
            },
            entity is None ==> final(self)@ == old(self)@,
    {
        let slot: usize = key.slot();
        if slot < self.slots.len() {
            match &mut self.slots[slot] {
                Some(entity) => Some(entity),
                None => None,
            }
        } else {
            None
        }
    }

    /// Replaces the living entity that `key` names.
    pub fn set(&mut self, key: K, entity: T)
        requires
            old(self).has(key),
        ensures
            final(self)@ == old(self)@.update(key.slot_of() as int, Some(entity)),
    {
        let slot: usize = key.slot();
        self.slots[slot] = Some(entity);
    }

    /// Adds an entity and returns its key.
    pub fn insert(&mut self, entity: T) -> (key: K)
        ensures
            key.slot_of() == old(self)@.len(),
            final(self)@ == old(self)@.push(Some(entity)),
    {
        let slot: usize = self.slots.len();
        self.slots.push(Some(entity));
        K::from_slot(slot)
    }

    /// Removes the entity that `key` names; a stale key changes nothing.
    pub fn remove(&mut self, key: K) -> (gone: Option<T>)
        ensures
            gone is Some <==> old(self).has(key),
            gone matches Some(e) ==> e == old(self).at(key),
            final(self)@ == without(old(self)@, key.slot_of()),
    {
        let slot: usize = key.slot();
        if slot < self.slots.len() {
            let mut gone: Option<T> = None;
            std::mem::swap(&mut gone, &mut self.slots[slot]);
            gone
        } else {
            None
        }
    }
}

/// An arena has no more slots than a machine word counts.
pub proof fn lemma_slots_bounded<K: ArenaKey, T>(arena: &Arena<K, T>)
    ensures
        arena@.len() <= usize::MAX,
{
    assert(arena.slots.len() == arena.slots@.len());
}

/// The slots after the entity of slot `slot` has left.
pub open spec fn without<T>(slots: Seq<Option<T>>, slot: nat) -> Seq<Option<T>> {
    if slot < slots.len() {
        slots.update(slot as int, None)
    } else {
        slots
    }
}

/// How many of the first `n` slots hold an entity.
pub open spec fn living<T>(slots: Seq<Option<T>>, n: nat) -> nat
    decreases n,
{
    if n == 0 {
        0
    } else {
        living(slots, (n - 1) as nat) + if slots[n - 1] is Some {
            1nat
        } else {
            0nat
        }
    }
}

/// Whether a list names slot `slot`.
pub open spec fn names<K: ArenaKey>(keys: Seq<K>, slot: int) -> bool {
    exists|i: int| 0 <= i < keys.len() && (#[trigger] keys[i]).slot_of() == slot
}

/// A list names what its start names and what comes next.
pub(crate) proof fn lemma_names_next<K: ArenaKey>(keys: Seq<K>, at: int)
    requires
        0 <= at < keys.len(),
    ensures
        forall|s: int| #[trigger]
            names(keys.take(at + 1), s) == (names(keys.take(at), s) || s == keys[at].slot_of()),
{
    let now = keys.take(at);
    let next = keys.take(at + 1);
    assert(next[at].slot_of() == keys[at].slot_of());
    assert forall|s: int| #[trigger] names(next, s) == (names(now, s) || s == keys[at].slot_of()) by {
        if names(now, s) {
            let k = choose|k: int| 0 <= k < now.len() && (#[trigger] now[k]).slot_of() == s;
            assert(next[k] == now[k]);
        }
        if names(next, s) {
            let k = choose|k: int| 0 <= k < next.len() && (#[trigger] next[k]).slot_of() == s;
            if k < at {
                assert(now[k] == next[k]);
            }
        }
    }
}

/// The slots after one entity, if it is alive, was changed.
pub open spec fn change_one<T>(slots: Seq<Option<T>>, slot: int, change: spec_fn(T) -> T) -> Seq<
    Option<T>,
> {
    if occupied(slots, slot) {
        slots.update(slot, Some(change(slots[slot]->0)))
    } else {
        slots
    }
}

/// The slots after every listed entity was changed.
pub open spec fn changed<K: ArenaKey, T>(
    slots: Seq<Option<T>>,
    keys: Seq<K>,
    change: spec_fn(T) -> T,
) -> Seq<Option<T>> {
    Seq::new(
        slots.len(),
        |s: int|
            if slots[s] is Some && names(keys, s) {
                Some(change(slots[s]->0))
            } else {
                slots[s]
            },
    )
}

/// Listed entities are changed one by one, where a second change of the same
/// entity adds nothing.
pub(crate) proof fn lemma_changed_next<K: ArenaKey, T>(
    slots: Seq<Option<T>>,
    keys: Seq<K>,
    at: int,
    change: spec_fn(T) -> T,
)
    requires
        0 <= at < keys.len(),
        forall|t: T| change(#[trigger] change(t)) == change(t),
    ensures
        change_one(changed(slots, keys.take(at), change), keys[at].slot_of() as int, change)
            == changed(slots, keys.take(at + 1), change),
{
    lemma_names_next(keys, at);
    let now = changed(slots, keys.take(at), change);
    let next = changed(slots, keys.take(at + 1), change);
    let after = change_one(now, keys[at].slot_of() as int, change);
    assert forall|s: int| 0 <= s < slots.len() implies after[s] == next[s] by {
        assert(names(keys.take(at + 1), s) == (names(keys.take(at), s) || s
            == keys[at].slot_of()));
    }
    assert(after =~= next);
}

/// The slots after every listed entity has left.
pub open spec fn cleared<K: ArenaKey, T>(slots: Seq<Option<T>>, keys: Seq<K>) -> Seq<Option<T>> {
    Seq::new(
        slots.len(),
        |s: int|
            if names(keys, s) {
                None
            } else {
                slots[s]
            },
    )
}

/// Removes every listed entity.
pub(crate) fn remove_all<K: ArenaKey, T>(arena: &mut Arena<K, T>, keys: &Vec<K>)
    ensures
        final(arena)@ == cleared(old(arena)@, keys@),
{
    let ghost before = arena@;
    assert(cleared(before, keys@.take(0)) =~= before);
    for i in 0..keys.len()
        invariant
            arena@ == cleared(before, keys@.take(i as int)),
    {
        let ghost next = keys@.take(i + 1);
        let _ = arena.remove(keys[i]);
        proof {
            lemma_names_next(keys@, i as int);
        }
        assert(arena@ =~= cleared(before, next));
    }
    assert(keys@.take(keys@.len() as int) =~= keys@);
}

/// Copies a list of keys.
pub(crate) fn copy_keys<K: Copy>(keys: &Vec<K>) -> (copy: Vec<K>)
    ensures
        copy@ == keys@,
{
    let mut copy: Vec<K> = Vec::new();
    for i in 0..keys.len()
        invariant
            copy@ == keys@.take(i as int),
    {
        copy.push(keys[i]);
        assert(copy@ =~= keys@.take(i + 1));
    }
    assert(copy@ =~= keys@);
    copy
}

} // verus!
