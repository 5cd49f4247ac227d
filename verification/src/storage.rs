//! Component storage: a sparse set whose slots may be shared.
//!
//! One storage holds the components of one type. A sparse array maps an
//! entity index to its [`Slot`]; a dense array holds the owned components,
//! each beside the key of the entity that owns it.

use vstd::prelude::*;
use crate::entity::Key;
use crate::sparse::{index_of, resolve, slot_at, slot_map, Slot};
use crate::tight::{Tight1, TightView};

verus! {

/// Why a storage operation was refused.
#[derive(Clone, Copy, Debug, PartialEq, Eq, Structural)]
pub enum StorageError {
    /// The entity has no component: its slot is absent, or it is shared and
    /// its chain of owners does not end in owned data.
    NotFound,
    /// The target of a share already has a component, owned or shared, or is
    /// the owner itself.
    ShareConflict,
    /// The target of an unshare is not shared.
    UnshareConflict,
}

/// What `remove` took away.
#[derive(Debug, PartialEq, Eq)]
pub enum OldValue<T> {
    /// The entity owned this component.
    WasOwned(T),
    /// The entity was sharing another entity's component; the link is gone.
    WasShared,
}

/// The mathematical content of a storage.
pub struct StorageView<T> {
    /// The slots that are not absent, by entity index.
    pub slots: Map<int, Slot>,
    /// The keys of the owning entities, in dense order.
    pub keys: Seq<Key>,
    /// The owned components, in dense order: `values[d]` belongs to `keys[d]`.
    pub values: Seq<T>,
}

impl<T> StorageView<T> {
    /// The bookkeeping of the storage, without its components.
    pub open spec fn raw(self) -> RawStorage {
        RawStorage { slots: self.slots, keys: self.keys }
    }

    /// The bookkeeping is consistent, and every dense position holds a key
    /// and a component.
    pub open spec fn consistent(self) -> bool {
        self.raw().consistent() && self.keys.len() == self.values.len()
    }

    /// The slot of the entity `key`, by its index.
    pub open spec fn slot_of(self, key: Key) -> Slot {
        slot_at(self.slots, key.index as int)
    }

    /// The dense position that `key` resolves to, through zero or more shared
    /// slots, if its chain ends in owned data.
    pub open spec fn position_of(self, key: Key) -> Option<usize> {
        resolve(self.slots, key.index as int)
    }

    /// The storage after `insert(key, value)`: an owning slot has its
    /// component and key replaced in place; any other slot, shared ones
    /// included, becomes the owner of a new last dense position.
    pub open spec fn inserted(self, key: Key, value: T) -> StorageView<T> {
        match self.slot_of(key) {
            Slot::Owned(d) => StorageView {
                slots: self.slots,
                keys: self.keys.update(d as int, key),
                values: self.values.update(d as int, value),
            },
            _ => StorageView {
                slots: self.slots.insert(key.index as int, Slot::Owned(self.keys.len() as usize)),
                keys: self.keys.push(key),
                values: self.values.push(value),
            },
        }
    }

    /// The component that `insert(key, ..)` evicts: the one that `key` owns.
    pub open spec fn owned_by(self, key: Key) -> Option<T> {
        match self.slot_of(key) {
            Slot::Owned(d) => Some(self.values[d as int]),
            _ => None,
        }
    }

    /// The storage after `remove(key)`. An owned component leaves the dense
    /// array by swap-remove: the last dense element takes its place, and the
    /// slot of the entity that owns that element is pointed at the new
    /// position. A shared slot only loses its link. Slots that were sharing
    /// `key` keep their links.
    pub open spec fn removed(self, key: Key) -> StorageView<T> {
        match self.slot_of(key) {
            Slot::Owned(d) => {
                let last = self.keys.len() - 1;
                StorageView {
                    slots: if d == last {
                        self.slots.remove(key.index as int)
                    } else {
                        self.slots.remove(key.index as int).insert(
                            self.keys[last].index as int,
                            Slot::Owned(d),
                        )
                    },
                    keys: self.keys.update(d as int, self.keys[last]).drop_last(),
                    values: self.values.update(d as int, self.values[last]).drop_last(),
                }
            },
            Slot::Shared(_) => StorageView {
                slots: self.slots.remove(key.index as int),
                keys: self.keys,
                values: self.values,
            },
            Slot::Absent => self,
        }
    }

    /// What `remove(key)` takes away.
    pub open spec fn taken_from(self, key: Key) -> Option<OldValue<T>> {
        match self.slot_of(key) {
            Slot::Owned(d) => Some(OldValue::WasOwned(self.values[d as int])),
            Slot::Shared(_) => Some(OldValue::WasShared),
            Slot::Absent => None,
        }
    }

    /// Whether `share(owner, target)` is accepted: the target is another
    /// entity than the owner, and has no component yet, owned or shared.
    pub open spec fn can_share(self, owner: Key, target: Key) -> bool {
        owner != target && self.slot_of(target) == Slot::Absent
    }

    /// The storage after an accepted `share(owner, target)`: the slot of
    /// `target` redirects to `owner`.
    pub open spec fn shared(self, owner: Key, target: Key) -> StorageView<T> {
        StorageView {
            slots: self.slots.insert(target.index as int, Slot::Shared(owner)),
            keys: self.keys,
            values: self.values,
        }
    }

    /// Whether `unshare(target)` is accepted: the slot of `target` is shared.
    pub open spec fn can_unshare(self, target: Key) -> bool {
        self.slot_of(target) is Shared
    }

    /// The storage after an accepted `unshare(target)`: the slot of `target`
    /// is absent.
    pub open spec fn unshared(self, target: Key) -> StorageView<T> {
        StorageView {
            slots: self.slots.remove(target.index as int),
            keys: self.keys,
            values: self.values,
        }
    }

    /// The component that `key` presents: its own, or the one at the end of
    /// its chain of owners.
    pub open spec fn value_of(self, key: Key) -> Option<T> {
        match self.position_of(key) {
            Some(d) => Some(self.values[d as int]),
            None => None,
        }
    }
}

/// The storage of the components of type `T`.
pub struct SparseSet<T> {
    sparse: Vec<Slot>,
    dense: Vec<Key>,
    data: Vec<T>,
}

impl<T> View for SparseSet<T> {
    type V = StorageView<T>;

    closed spec fn view(&self) -> StorageView<T> {
        StorageView { slots: slot_map(self.sparse@), keys: self.dense@, values: self.data@ }
    }
}

impl<T> SparseSet<T> {
    /// The storage is well formed: its view is consistent.
    pub open spec fn wf(&self) -> bool {
        self@.consistent()
    }

    /// An owned slot points inside the dense array.
    pub proof fn lemma_position_in_bounds(&self, key: Key)
        requires
            self.wf(),
        ensures
            self@.position_of(key) matches Some(d) ==> d < self@.values.len(),
    {
        lemma_resolve_in_bounds(self@.raw(), key.index as int);
    }

    /// An empty storage.
    pub fn new() -> (storage: SparseSet<T>)
        ensures
            storage.wf(),
            storage@.slots == Map::<int, Slot>::empty(),
            storage@.keys == Seq::<Key>::empty(),
            storage@.values == Seq::<T>::empty(),
    {
        let storage = SparseSet { sparse: Vec::new(), dense: Vec::new(), data: Vec::new() };
        assert(storage@.slots =~= Map::<int, Slot>::empty());
        storage
    }

    /// The number of owned components.
    pub fn len(&self) -> (len: usize)
        ensures
            len == self@.values.len(),
    {
        self.data.len()
    }

    /// Whether the storage owns no component.
    pub fn is_empty(&self) -> (empty: bool)
        ensures
            empty == (self@.values.len() == 0),
    {
        self.data.len() == 0
    }

    /// Whether `key` presents a component, its own or a shared one.
    pub fn contains(&self, key: Key) -> (present: bool)
        ensures
            present == self@.value_of(key).is_some(),
    {
        index_of(self.sparse.as_slice(), key.index).is_some()
    }

    /// The slot of `key`.
    pub fn slot(&self, key: Key) -> (slot: Slot)
        ensures
            slot == self@.slot_of(key),
    {
        if key.index < self.sparse.len() {
            self.sparse[key.index]
        } else {
            Slot::Absent
        }
    }

    /// The component that `key` presents.
    ///
    /// A shared slot is followed to its owner, and on through the owner's own
    /// slot, until owned data is found. Fails with `NotFound` where the chain
    /// ends on an absent slot or never ends.
    pub fn get(&self, key: Key) -> (found: Result<&T, StorageError>)
        requires
            self.wf(),
        ensures
            match found {
                Ok(value) => self@.value_of(key) == Some(*value),
                Err(e) => e == StorageError::NotFound && self@.value_of(key).is_none(),
            },
    {
        match index_of(self.sparse.as_slice(), key.index) {
            Some(d) => {
                proof {
                    self.lemma_position_in_bounds(key);
                }
                Ok(&self.data[d])
            },
            None => Err(StorageError::NotFound),
        }
    }

    /// Exclusive access to the component that `key` presents.
    ///
    /// Resolves as `get` does. Through a shared slot this reaches the owner's
    /// component: what is written there is seen by the owner and by every
    /// entity that shares it. Nothing else in the storage changes.
    pub fn get_mut(&mut self, key: Key) -> (found: Result<&mut T, StorageError>)
        requires
            old(self).wf(),
        ensures
            match found {
                Ok(value) => {
                    &&& old(self)@.position_of(key) matches Some(d)
                    &&& *value == old(self)@.values[d as int]
                    &&& final(self)@.slots == old(self)@.slots
                    &&& final(self)@.keys == old(self)@.keys
                    &&& final(self)@.values == old(self)@.values.update(d as int, *final(value))
                },
                Err(e) => {
                    &&& e == StorageError::NotFound
                    &&& old(self)@.value_of(key).is_none()
                    &&& final(self)@ == old(self)@
                },
            },
    {
        match index_of(self.sparse.as_slice(), key.index) {
            Some(d) => {
                proof {
                    self.lemma_position_in_bounds(key);
                }
                Ok(&mut self.data[d])
            },
            None => Err(StorageError::NotFound),
        }
    }

    /// Lengthens the sparse array with absent slots until it covers `index`.
    fn cover(&mut self, index: usize)
        requires
            index < usize::MAX,
        ensures
            final(self).sparse@.len() > index,
            final(self)@ == old(self)@,
            final(self).dense == old(self).dense,
            final(self).data == old(self).data,
    {
        while self.sparse.len() <= index
            invariant
                index < usize::MAX,
                slot_map(self.sparse@) =~= slot_map(old(self).sparse@),
                self.dense == old(self).dense,
                self.data == old(self).data,
            decreases index + 1 - self.sparse.len(),
        {
            self.sparse.push(Slot::Absent);
        }
    }

    /// Gives `key` the component `value` and returns the component that this
    /// evicts, if `key` owned one.
    ///
    /// A slot that was shared becomes owned: the link is discarded, and
    /// nothing is evicted, since the slot held no component of its own.
    pub fn insert(&mut self, key: Key, value: T) -> (evicted: Option<T>)
        requires
            old(self).wf(),
            key.index < usize::MAX,
        ensures
            final(self).wf(),
            final(self)@ == old(self)@.inserted(key, value),
            evicted == old(self)@.owned_by(key),
    {
        self.cover(key.index);
        match self.sparse[key.index] {
            Slot::Owned(d) => {
                self.data.push(value);
                let evicted = self.data.swap_remove(d);
                self.dense[d] = key;
                assert(self@.values =~= old(self)@.values.update(d as int, value));
                Some(evicted)
            },
            _ => {
                let d = self.dense.len();
                self.sparse[key.index] = Slot::Owned(d);
                self.dense.push(key);
                self.data.push(value);
                assert(self.dense@.len() == self.dense.len());
                assert(self@.slots =~= old(self)@.slots.insert(key.index as int, Slot::Owned(d)));
                None
            },
        }
    }

    /// Takes away what `key` has in this storage, and says what it was.
    ///
    /// Removing an owned component does not touch the slots that share it:
    /// they stay shared and resolve to nothing from now on.
    pub fn remove(&mut self, key: Key) -> (taken: Option<OldValue<T>>)
        requires
            old(self).wf(),
        ensures
            final(self).wf(),
            final(self)@ == old(self)@.removed(key),
            taken == old(self)@.taken_from(key),
    {
        if key.index >= self.sparse.len() {
            return None;
        }
        match self.sparse[key.index] {
            Slot::Absent => None,
            Slot::Shared(_) => {
                self.sparse[key.index] = Slot::Absent;
                assert(self@.slots =~= old(self)@.slots.remove(key.index as int));
                Some(OldValue::WasShared)
            },
            Slot::Owned(d) => {
                assert(old(self)@.slots.contains_key(key.index as int));
                self.sparse[key.index] = Slot::Absent;
                let value = self.data.swap_remove(d);
                self.dense.swap_remove(d);
                if d < self.dense.len() {
                    let moved = self.dense[d];
                    assert(moved == old(self)@.keys.last());
                    assert(old(self)@.slots.contains_key(moved.index as int));
                    self.sparse[moved.index] = Slot::Owned(d);
                }
                assert(self@.slots =~= old(self)@.removed(key).slots);
                Some(OldValue::WasOwned(value))
            },
        }
    }

    /// Clears what `key` has in this storage. To be called for each storage
    /// when the entity itself is deleted.
    pub fn delete(&mut self, key: Key)
        requires
            old(self).wf(),
        ensures
            final(self).wf(),
            final(self)@ == old(self)@.removed(key),
    {
        let _ = self.remove(key);
    }

    /// Makes `target` present the component of `owner`.
    ///
    /// Only the link is stored. Whether `owner` has a component, now or
    /// later, its own or a shared one, is found out anew on each lookup of
    /// `target`. Fails with `ShareConflict`, and changes nothing, where
    /// `target` already has a component, owned or shared, or is `owner`
    /// itself.
    pub fn share(&mut self, owner: Key, target: Key) -> (done: Result<(), StorageError>)
        requires
            old(self).wf(),
            target.index < usize::MAX,
        ensures
            final(self).wf(),
            match done {
                Ok(_) => old(self)@.can_share(owner, target) && final(self)@ == old(self)@.shared(
                    owner,
                    target,
                ),
                Err(e) => e == StorageError::ShareConflict && !old(self)@.can_share(owner, target)
                    && final(self)@ == old(self)@,
            },
    {
        if owner == target {
            return Err(StorageError::ShareConflict);
        }
        if target.index < self.sparse.len() && self.sparse[target.index] != Slot::Absent {
            return Err(StorageError::ShareConflict);
        }
        self.cover(target.index);
        self.sparse[target.index] = Slot::Shared(owner);
        assert(self@.slots =~= old(self)@.slots.insert(target.index as int, Slot::Shared(owner)));
        Ok(())
    }

    /// Takes back the link that `share` gave `target`. Fails with
    /// `UnshareConflict`, and changes nothing, where the slot of `target` is
    /// not shared.
    pub fn unshare(&mut self, target: Key) -> (done: Result<(), StorageError>)
        requires
            old(self).wf(),
        ensures
            final(self).wf(),
            match done {
                Ok(_) => old(self)@.can_unshare(target) && final(self)@ == old(self)@.unshared(
                    target,
                ),
                Err(e) => e == StorageError::UnshareConflict && !old(self)@.can_unshare(target)
                    && final(self)@ == old(self)@,
            },
    {
        if target.index < self.sparse.len() {
            if let Slot::Shared(_) = self.sparse[target.index] {
                self.sparse[target.index] = Slot::Absent;
                assert(self@.slots =~= old(self)@.slots.remove(target.index as int));
                return Ok(());
            }
        }
        Err(StorageError::UnshareConflict)
    }

    /// The owned components, in dense order.
    pub fn values(&self) -> (values: &[T])
        ensures
            values@ == self@.values,
    {
        self.data.as_slice()
    }

    /// The keys of the owning entities, in dense order.
    pub fn keys(&self) -> (keys: &[Key])
        ensures
            keys@ == self@.keys,
    {
        self.dense.as_slice()
    }

    /// A cursor over the owned components, in dense order. Entities that
    /// share a component are not visited: each component is yielded once,
    /// for its owner.
    pub fn iter(&self) -> (cursor: Tight1<'_, T>)
        ensures
            cursor.wf(),
            cursor@ == (TightView {
                data: self@.values,
                current: 0,
                end: self@.values.len() as int,
            }),
    {
        Tight1::new(self.data.as_slice())
    }

    /// A read-only view of the bookkeeping of this storage, without its
    /// components: what a cursor needs to test presence.
    pub fn raw_view(&self) -> (raw: RawView<'_>)
        requires
            self.wf(),
        ensures
            raw.wf(),
            raw@.slots == self@.slots,
            raw@.keys == self@.keys,
    {
        RawView { sparse: self.sparse.as_slice(), keys: self.dense.as_slice() }
    }
}

/// The mathematical content of a raw view: the slots and the dense keys of
/// one storage.
pub struct RawStorage {
    /// The slots that are not absent, by entity index.
    pub slots: Map<int, Slot>,
    /// The keys of the owning entities, in dense order.
    pub keys: Seq<Key>,
}

impl RawStorage {
    /// Every dense position has exactly one owning slot pointing to it, the
    /// slot of the entity whose key is stored there.
    pub open spec fn consistent(self) -> bool {
        &&& self.keys.len() <= usize::MAX
        &&& forall|i: int| #[trigger]
            self.slots.contains_key(i) ==> 0 <= i <= usize::MAX && match self.slots[i] {
                Slot::Absent => false,
                Slot::Owned(d) => d < self.keys.len() && self.keys[d as int].index == i,
                Slot::Shared(_) => true,
            }
        &&& forall|d: int|
            0 <= d < self.keys.len() ==> slot_at(self.slots, (#[trigger] self.keys[d]).index as int)
                == Slot::Owned(d as usize)
    }

    /// The dense position that `key` resolves to, through zero or more shared
    /// slots, if its chain ends in owned data.
    pub open spec fn position_of(self, key: Key) -> Option<usize> {
        resolve(self.slots, key.index as int)
    }
}

/// The bookkeeping of one storage, borrowed for reading, with the type of
/// its components forgotten.
#[derive(Clone, Copy)]
pub struct RawView<'a> {
    sparse: &'a [Slot],
    keys: &'a [Key],
}

impl<'a> View for RawView<'a> {
    type V = RawStorage;

    closed spec fn view(&self) -> RawStorage {
        RawStorage { slots: slot_map(self.sparse@), keys: self.keys@ }
    }
}

impl<'a> RawView<'a> {
    /// The view is well formed: its content is consistent.
    pub open spec fn wf(&self) -> bool {
        self@.consistent()
    }

    /// The number of owned components in the storage.
    pub fn len(&self) -> (len: usize)
        ensures
            len == self@.keys.len(),
    {
        self.keys.len()
    }

    /// The key stored at dense position `d`.
    pub fn key_at(&self, d: usize) -> (key: Key)
        requires
            d < self@.keys.len(),
        ensures
            key == self@.keys[d as int],
    {
        self.keys[d]
    }

    /// The dense position of the component that `key` presents, its own or a
    /// shared one.
    pub fn index_of(&self, key: Key) -> (found: Option<usize>)
        requires
            self.wf(),
        ensures
            found == self@.position_of(key),
            found matches Some(d) ==> d < self@.keys.len(),
    {
        proof {
            lemma_resolve_in_bounds(self@, key.index as int);
        }
        index_of(self.sparse, key.index)
    }
}

/// Whatever an entity index resolves to lies inside the dense array.
pub proof fn lemma_resolve_in_bounds(raw: RawStorage, i: int)
    requires
        raw.consistent(),
    ensures
        resolve(raw.slots, i) matches Some(d) ==> d < raw.keys.len(),
{
    if let Some(d) = resolve(raw.slots, i) {
        crate::sparse::lemma_resolve_iff(raw.slots, i, d);
        let hops = choose|hops: nat| crate::sparse::reaches(raw.slots, i, hops, d);
        crate::sparse::lemma_reaches_owned(raw.slots, i, hops, d);
    }
}

/// The entity whose key is stored at a dense position resolves to that
/// position.
pub proof fn lemma_resolve_dense(raw: RawStorage, d: int)
    requires
        raw.consistent(),
        0 <= d < raw.keys.len(),
    ensures
        raw.position_of(raw.keys[d]) == Some(d as usize),
{
    crate::sparse::lemma_resolve_owned(raw.slots, raw.keys[d].index as int, d as usize);
}

} // verus!
