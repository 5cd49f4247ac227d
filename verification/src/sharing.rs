//! What holds of shared components, in every state of a storage.
//!
//! The statements are over [`StorageView`] and its transition functions, the
//! same ones that the contracts of the storage operations use.

use vstd::prelude::*;
use crate::entity::Key;
use crate::sparse::{
    is_chain, lemma_resolve_absent, lemma_resolve_iff, lemma_resolve_owned, lemma_resolve_shared,
    lemma_revisiting_chain_unresolved, reaches, Slot,
};
use crate::storage::{OldValue, StorageView};

verus! {

/// An entity presents a component exactly when its slot leads, through zero
/// or more shared slots, to an owning slot.
pub proof fn lemma_present_iff_chain_ends_owned<T>(view: StorageView<T>, key: Key)
    ensures
        view.value_of(key).is_some() <==> exists|hops: nat, d: usize|
            reaches(view.slots, key.index as int, hops, d),
{
    if let Some(d) = view.position_of(key) {
        lemma_resolve_iff(view.slots, key.index as int, d);
        let hops = choose|hops: nat| reaches(view.slots, key.index as int, hops, d);
        assert(reaches(view.slots, key.index as int, hops, d));
    }
    if exists|hops: nat, d: usize| reaches(view.slots, key.index as int, hops, d) {
        let (hops, d) = choose|hops: nat, d: usize| reaches(view.slots, key.index as int, hops, d);
        lemma_resolve_iff(view.slots, key.index as int, d);
    }
}

/// An entity that owns a component presents that component.
pub proof fn lemma_owner_presents_own<T>(view: StorageView<T>, key: Key, d: usize)
    requires
        view.slot_of(key) == Slot::Owned(d),
    ensures
        view.value_of(key) == Some(view.values[d as int]),
{
    lemma_resolve_owned(view.slots, key.index as int, d);
}

/// An entity without a slot presents nothing.
pub proof fn lemma_absent_presents_nothing<T>(view: StorageView<T>, key: Key)
    requires
        view.slot_of(key) == Slot::Absent,
    ensures
        view.value_of(key).is_none(),
{
    lemma_resolve_absent(view.slots, key.index as int);
}

/// A sharing entity presents, at every moment, what its owner presents at
/// that moment: nothing is cached in the shared slot.
pub proof fn lemma_shared_presents_owner<T>(view: StorageView<T>, owner: Key, target: Key)
    requires
        view.slot_of(target) == Slot::Shared(owner),
    ensures
        view.value_of(target) == view.value_of(owner),
{
    lemma_resolve_shared(view.slots, target.index as int, owner);
}

/// Sharing is transitive: where `b` shares `a` and `c` shares `b`, `c`
/// presents what `a` presents.
pub proof fn lemma_sharing_transitive<T>(view: StorageView<T>, a: Key, b: Key, c: Key)
    requires
        view.slot_of(b) == Slot::Shared(a),
        view.slot_of(c) == Slot::Shared(b),
    ensures
        view.value_of(c) == view.value_of(a),
{
    lemma_shared_presents_owner(view, a, b);
    lemma_shared_presents_owner(view, b, c);
}

/// Sharing is dynamic: where `c` shares `b`, and `b` is unshared and then
/// shared with another owner `x`, `c` presents what `x` presents, though
/// the slot of `c` was not touched.
pub proof fn lemma_reshare_reaches_descendants<T>(view: StorageView<T>, x: Key, b: Key, c: Key)
    requires
        view.slot_of(c) == Slot::Shared(b),
        b.index != c.index,
        view.can_unshare(b),
        x != b,
    ensures
        view.unshared(b).can_share(x, b),
        ({
            let after = view.unshared(b).shared(x, b);
            &&& after.slot_of(c) == view.slot_of(c)
            &&& after.value_of(b) == after.value_of(x)
            &&& after.value_of(c) == after.value_of(x)
        }),
{
    let after = view.unshared(b).shared(x, b);
    lemma_shared_presents_owner(after, x, b);
    lemma_shared_presents_owner(after, b, c);
}

/// Unsharing `b` leaves `b` and every entity `c` that shares `b` without a
/// component, though the link from `c` to `b` stays.
pub proof fn lemma_unshare_cuts_descendants<T>(view: StorageView<T>, b: Key, c: Key)
    requires
        view.slot_of(c) == Slot::Shared(b),
        b.index != c.index,
        view.can_unshare(b),
    ensures
        view.unshared(b).slot_of(c) == Slot::Shared(b),
        view.unshared(b).value_of(b).is_none(),
        view.unshared(b).value_of(c).is_none(),
{
    let after = view.unshared(b);
    lemma_absent_presents_nothing(after, b);
    lemma_shared_presents_owner(after, b, c);
}

/// Removing an owned component leaves the entities that share it without a
/// component, and their links in place.
pub proof fn lemma_remove_owner_cuts_descendants<T>(view: StorageView<T>, owner: Key, c: Key)
    requires
        view.consistent(),
        view.slot_of(owner) is Owned,
        view.slot_of(c) == Slot::Shared(owner),
    ensures
        view.removed(owner).slot_of(c) == Slot::Shared(owner),
        view.removed(owner).value_of(owner).is_none(),
        view.removed(owner).value_of(c).is_none(),
{
    let after = view.removed(owner);
    let last = view.keys.len() - 1;
    assert(view.slots.contains_key(owner.index as int));
    assert(view.slot_of(view.keys[last]) == Slot::Owned(last as usize));
    lemma_absent_presents_nothing(after, owner);
    lemma_shared_presents_owner(after, owner, c);
}

/// No entity can be shared with itself: the request is refused, and an
/// entity that had no slot before has no component after.
pub proof fn lemma_self_share_refused<T>(view: StorageView<T>, e: Key)
    ensures
        !view.can_share(e, e),
        view.slot_of(e) == Slot::Absent ==> view.value_of(e).is_none(),
{
    if view.slot_of(e) == Slot::Absent {
        lemma_absent_presents_nothing(view, e);
    }
}

/// A slot that redirects to its own index never ends in owned data.
pub proof fn lemma_self_link_unresolved<T>(view: StorageView<T>, owner: Key, e: Key)
    requires
        view.slot_of(e) == Slot::Shared(owner),
        owner.index == e.index,
    ensures
        view.value_of(e).is_none(),
{
    let i = e.index as int;
    let path = seq![i, i];
    assert(is_chain(view.slots, path));
    lemma_revisiting_chain_unresolved(view.slots, path, 0, 1);
}

/// Removing a shared slot reports that it was shared, never an owned
/// component, takes nothing out of the dense array, and leaves the entity
/// without a component.
pub proof fn lemma_remove_shared<T>(view: StorageView<T>, key: Key)
    requires
        view.slot_of(key) is Shared,
    ensures
        view.taken_from(key) == Some(OldValue::<T>::WasShared),
        view.removed(key).slot_of(key) == Slot::Absent,
        view.removed(key).value_of(key).is_none(),
        view.removed(key).keys == view.keys,
        view.removed(key).values == view.values,
{
    lemma_absent_presents_nothing(view.removed(key), key);
}

/// Inserting over a shared slot makes it owned: the entity presents the
/// inserted component, nothing is evicted, and the slot can no longer be
/// unshared.
pub proof fn lemma_insert_overrides_share<T>(view: StorageView<T>, key: Key, value: T)
    requires
        view.consistent(),
        view.slot_of(key) is Shared,
    ensures
        view.owned_by(key).is_none(),
        view.inserted(key, value).slot_of(key) == Slot::Owned(view.keys.len() as usize),
        view.inserted(key, value).value_of(key) == Some(value),
        !view.inserted(key, value).can_unshare(key),
{
    lemma_owner_presents_own(view.inserted(key, value), key, view.keys.len() as usize);
}

} // verus!
