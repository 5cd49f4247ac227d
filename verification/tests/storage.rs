use sparse_storage::entity::Key;
use sparse_storage::sparse::{index_of, Slot};
use sparse_storage::storage::{OldValue, SparseSet, StorageError};

fn key(index: usize) -> Key {
    Key::new(index, 0)
}

#[test]
fn key_equality_needs_both_fields() {
    assert_eq!(Key::new(3, 1), Key::new(3, 1));
    assert_ne!(Key::new(3, 1), Key::new(3, 2));
    assert_ne!(Key::new(3, 1), Key::new(4, 1));
    assert_eq!(Key::new(3, 1).index(), 3);
    assert_eq!(Key::new(3, 1).gen(), 1);
}

#[test]
fn empty_storage_has_nothing() {
    let u32s: SparseSet<u32> = SparseSet::new();
    assert_eq!(u32s.len(), 0);
    assert!(u32s.is_empty());
    assert!(!u32s.contains(key(0)));
    assert_eq!(u32s.get(key(0)), Err(StorageError::NotFound));
    assert_eq!(u32s.get(key(1_000_000)), Err(StorageError::NotFound));
    assert_eq!(u32s.slot(key(7)), Slot::Absent);
}

#[test]
fn get_succeeds_exactly_where_the_chain_ends_owned() {
    let mut u32s: SparseSet<u32> = SparseSet::new();
    u32s.insert(key(0), 10);
    u32s.share(key(0), key(1)).unwrap();
    u32s.share(key(1), key(2)).unwrap();
    u32s.share(key(2), key(3)).unwrap();
    // chain ending on an absent slot
    u32s.share(key(9), key(4)).unwrap();
    u32s.share(key(4), key(5)).unwrap();
    for index in 0..4 {
        assert_eq!(u32s.get(key(index)), Ok(&10));
        assert!(u32s.contains(key(index)));
    }
    for index in [4usize, 5, 6, 9] {
        assert_eq!(u32s.get(key(index)), Err(StorageError::NotFound));
        assert!(!u32s.contains(key(index)));
    }
}

#[test]
fn insert_returns_the_evicted_component() {
    let mut u32s: SparseSet<u32> = SparseSet::new();
    assert_eq!(u32s.insert(key(5), 1), None);
    assert_eq!(u32s.slot(key(5)), Slot::Owned(0));
    assert_eq!(u32s.insert(key(5), 2), Some(1));
    assert_eq!(u32s.slot(key(5)), Slot::Owned(0));
    assert_eq!(u32s.len(), 1);
    assert_eq!(u32s.get(key(5)), Ok(&2));
    assert_eq!(u32s.values(), &[2]);
}

#[test]
fn insert_stores_the_key_beside_the_component() {
    let mut u32s: SparseSet<u32> = SparseSet::new();
    u32s.insert(Key::new(2, 0), 1);
    u32s.insert(Key::new(0, 4), 2);
    assert_eq!(u32s.keys(), &[Key::new(2, 0), Key::new(0, 4)]);
    u32s.insert(Key::new(2, 1), 3);
    assert_eq!(u32s.keys(), &[Key::new(2, 1), Key::new(0, 4)]);
    assert_eq!(u32s.values(), &[3, 2]);
}

#[test]
fn remove_swaps_the_last_component_in() {
    let mut u32s: SparseSet<u32> = SparseSet::new();
    u32s.insert(key(0), 10);
    u32s.insert(key(1), 11);
    u32s.insert(key(2), 12);
    assert_eq!(u32s.remove(key(0)), Some(OldValue::WasOwned(10)));
    assert_eq!(u32s.values(), &[12, 11]);
    assert_eq!(u32s.keys(), &[key(2), key(1)]);
    assert_eq!(u32s.slot(key(2)), Slot::Owned(0));
    assert_eq!(u32s.slot(key(1)), Slot::Owned(1));
    assert_eq!(u32s.slot(key(0)), Slot::Absent);
    assert_eq!(u32s.get(key(2)), Ok(&12));
    assert_eq!(u32s.get(key(1)), Ok(&11));
    assert_eq!(u32s.get(key(0)), Err(StorageError::NotFound));
}

#[test]
fn remove_of_the_last_component_moves_nothing() {
    let mut u32s: SparseSet<u32> = SparseSet::new();
    u32s.insert(key(0), 10);
    u32s.insert(key(1), 11);
    assert_eq!(u32s.remove(key(1)), Some(OldValue::WasOwned(11)));
    assert_eq!(u32s.values(), &[10]);
    assert_eq!(u32s.slot(key(0)), Slot::Owned(0));
    assert_eq!(u32s.remove(key(0)), Some(OldValue::WasOwned(10)));
    assert!(u32s.is_empty());
}

#[test]
fn remove_of_an_absent_slot_is_none() {
    let mut u32s: SparseSet<u32> = SparseSet::new();
    u32s.insert(key(0), 10);
    assert_eq!(u32s.remove(key(1)), None);
    assert_eq!(u32s.remove(key(100)), None);
    assert_eq!(u32s.len(), 1);
}

#[test]
fn remove_on_shared_reports_shared_and_never_owned() {
    let mut u32s: SparseSet<u32> = SparseSet::new();
    u32s.insert(key(0), 10);
    u32s.share(key(0), key(1)).unwrap();
    assert_eq!(u32s.remove(key(1)), Some(OldValue::WasShared));
    assert_eq!(u32s.get(key(1)), Err(StorageError::NotFound));
    assert_eq!(u32s.slot(key(1)), Slot::Absent);
    // the owner keeps its component
    assert_eq!(u32s.get(key(0)), Ok(&10));
    assert_eq!(u32s.len(), 1);
}

#[test]
fn removing_the_owner_keeps_the_links() {
    let mut u32s: SparseSet<u32> = SparseSet::new();
    u32s.insert(key(0), 10);
    u32s.share(key(0), key(1)).unwrap();
    u32s.share(key(1), key(2)).unwrap();
    assert_eq!(u32s.remove(key(0)), Some(OldValue::WasOwned(10)));
    assert_eq!(u32s.slot(key(1)), Slot::Shared(key(0)));
    assert_eq!(u32s.slot(key(2)), Slot::Shared(key(1)));
    assert_eq!(u32s.get(key(1)), Err(StorageError::NotFound));
    assert_eq!(u32s.get(key(2)), Err(StorageError::NotFound));
    // a new component for the owner is seen by both at once
    u32s.insert(key(0), 20);
    assert_eq!(u32s.get(key(1)), Ok(&20));
    assert_eq!(u32s.get(key(2)), Ok(&20));
}

#[test]
fn share_conflicts() {
    let mut u32s: SparseSet<u32> = SparseSet::new();
    u32s.insert(key(0), 10);
    u32s.insert(key(1), 11);
    // target owns a component
    assert_eq!(u32s.share(key(0), key(1)), Err(StorageError::ShareConflict));
    assert_eq!(u32s.get(key(1)), Ok(&11));
    // target is already shared
    u32s.share(key(0), key(2)).unwrap();
    assert_eq!(u32s.share(key(1), key(2)), Err(StorageError::ShareConflict));
    assert_eq!(u32s.get(key(2)), Ok(&10));
    // target is the owner
    assert_eq!(u32s.share(key(3), key(3)), Err(StorageError::ShareConflict));
    assert_eq!(u32s.share(key(0), key(0)), Err(StorageError::ShareConflict));
    assert_eq!(u32s.slot(key(3)), Slot::Absent);
    // an owner sharing itself keeps its component
    assert_eq!(u32s.get(key(0)), Ok(&10));
}

#[test]
fn unshare_conflicts() {
    let mut u32s: SparseSet<u32> = SparseSet::new();
    u32s.insert(key(0), 10);
    assert_eq!(u32s.unshare(key(0)), Err(StorageError::UnshareConflict));
    assert_eq!(u32s.unshare(key(1)), Err(StorageError::UnshareConflict));
    assert_eq!(u32s.unshare(key(100)), Err(StorageError::UnshareConflict));
    assert_eq!(u32s.get(key(0)), Ok(&10));
    u32s.share(key(0), key(1)).unwrap();
    assert_eq!(u32s.unshare(key(1)), Ok(()));
    assert_eq!(u32s.unshare(key(1)), Err(StorageError::UnshareConflict));
}

#[test]
fn insert_over_a_shared_slot_makes_it_owned() {
    let mut u32s: SparseSet<u32> = SparseSet::new();
    u32s.insert(key(0), 10);
    u32s.share(key(0), key(1)).unwrap();
    assert_eq!(u32s.insert(key(1), 11), None);
    assert_eq!(u32s.slot(key(1)), Slot::Owned(1));
    assert_eq!(u32s.get(key(1)), Ok(&11));
    assert_eq!(u32s.get(key(0)), Ok(&10));
    assert_eq!(u32s.unshare(key(1)), Err(StorageError::UnshareConflict));
    assert_eq!(u32s.get(key(1)), Ok(&11));
}

#[test]
fn sharing_is_transitive_and_dynamic() {
    let mut u32s: SparseSet<u32> = SparseSet::new();
    let (a, x, b, c) = (key(0), key(1), key(2), key(3));
    u32s.insert(a, 1);
    u32s.insert(x, 7);
    u32s.share(a, b).unwrap();
    u32s.share(b, c).unwrap();
    assert_eq!(u32s.get(c), u32s.get(a));
    assert_eq!(u32s.get(c), Ok(&1));
    u32s.unshare(b).unwrap();
    assert_eq!(u32s.get(b), Err(StorageError::NotFound));
    assert_eq!(u32s.get(c), Err(StorageError::NotFound));
    assert_eq!(u32s.slot(c), Slot::Shared(b));
    u32s.share(x, b).unwrap();
    assert_eq!(u32s.get(c), u32s.get(x));
    assert_eq!(u32s.get(c), Ok(&7));
}

#[test]
fn end_to_end_sharing() {
    let mut u32s: SparseSet<u32> = SparseSet::new();
    let (o1, o2, s1, s2) = (key(0), key(1), key(2), key(3));
    u32s.insert(o1, 1u32);
    u32s.insert(o2, 2u32);
    u32s.share(o1, s1).unwrap();
    u32s.share(s1, s2).unwrap();
    assert_eq!(u32s.get(s2), Ok(&1));
    u32s.unshare(s1).unwrap();
    assert!(u32s.get(s1).is_err());
    assert!(u32s.get(s2).is_err());
    u32s.share(o2, s1).unwrap();
    assert_eq!(u32s.get(s1), Ok(&2));
    assert_eq!(u32s.get(s2), Ok(&2));
}

#[test]
fn cycles_resolve_to_nothing() {
    let mut u32s: SparseSet<u32> = SparseSet::new();
    // two entities sharing each other
    u32s.share(key(0), key(1)).unwrap();
    u32s.share(key(1), key(0)).unwrap();
    assert_eq!(u32s.get(key(0)), Err(StorageError::NotFound));
    assert_eq!(u32s.get(key(1)), Err(StorageError::NotFound));
    // a chain that leads into the cycle
    u32s.share(key(0), key(2)).unwrap();
    u32s.share(key(2), key(3)).unwrap();
    assert_eq!(u32s.get(key(3)), Err(StorageError::NotFound));
    assert!(!u32s.contains(key(3)));
    // breaking the cycle with a component makes all of them resolve
    u32s.insert(key(1), 5);
    assert_eq!(u32s.get(key(0)), Ok(&5));
    assert_eq!(u32s.get(key(3)), Ok(&5));
}

#[test]
fn a_slot_linked_to_its_own_index_resolves_to_nothing() {
    let mut u32s: SparseSet<u32> = SparseSet::new();
    // another generation of the same index is another entity
    u32s.share(Key::new(4, 0), Key::new(4, 1)).unwrap();
    assert_eq!(u32s.slot(Key::new(4, 1)), Slot::Shared(Key::new(4, 0)));
    assert_eq!(u32s.get(Key::new(4, 1)), Err(StorageError::NotFound));
}

#[test]
fn a_chain_through_every_slot_resolves() {
    let mut u32s: SparseSet<u32> = SparseSet::new();
    let n = 50;
    u32s.insert(key(0), 99);
    for index in 1..n {
        u32s.share(key(index - 1), key(index)).unwrap();
    }
    assert_eq!(u32s.get(key(n - 1)), Ok(&99));
    u32s.remove(key(0));
    assert_eq!(u32s.get(key(n - 1)), Err(StorageError::NotFound));
}

#[test]
fn get_mut_through_a_share_writes_the_owner() {
    let mut u32s: SparseSet<u32> = SparseSet::new();
    u32s.insert(key(0), 10);
    u32s.insert(key(1), 11);
    u32s.share(key(1), key(2)).unwrap();
    *u32s.get_mut(key(2)).unwrap() = 42;
    assert_eq!(u32s.get(key(1)), Ok(&42));
    assert_eq!(u32s.get(key(2)), Ok(&42));
    assert_eq!(u32s.get(key(0)), Ok(&10));
    assert_eq!(u32s.get_mut(key(3)).err(), Some(StorageError::NotFound));
}

#[test]
fn delete_clears_owned_and_shared_slots() {
    let mut u32s: SparseSet<u32> = SparseSet::new();
    u32s.insert(key(0), 10);
    u32s.share(key(0), key(1)).unwrap();
    u32s.delete(key(1));
    assert_eq!(u32s.slot(key(1)), Slot::Absent);
    u32s.delete(key(0));
    assert_eq!(u32s.slot(key(0)), Slot::Absent);
    assert!(u32s.is_empty());
    u32s.delete(key(0));
    assert!(u32s.is_empty());
}

#[test]
fn index_of_follows_redirects_in_a_bare_sparse_array() {
    let sparse = [
        Slot::Shared(key(2)),
        Slot::Absent,
        Slot::Shared(key(3)),
        Slot::Owned(7),
        Slot::Shared(key(4)),
        Slot::Shared(key(100)),
    ];
    assert_eq!(index_of(&sparse, 0), Some(7));
    assert_eq!(index_of(&sparse, 2), Some(7));
    assert_eq!(index_of(&sparse, 3), Some(7));
    assert_eq!(index_of(&sparse, 1), None);
    assert_eq!(index_of(&sparse, 4), None);
    assert_eq!(index_of(&sparse, 5), None);
    assert_eq!(index_of(&sparse, 6), None);
    assert_eq!(index_of(&[], 0), None);
}

#[test]
fn index_of_stops_on_a_cycle_of_every_slot() {
    let sparse = [Slot::Shared(key(1)), Slot::Shared(key(2)), Slot::Shared(key(0))];
    assert_eq!(index_of(&sparse, 0), None);
    assert_eq!(index_of(&sparse, 1), None);
    assert_eq!(index_of(&sparse, 2), None);
    let own = [Slot::Shared(key(0))];
    assert_eq!(index_of(&own, 0), None);
}

#[test]
fn raw_view_resolves_like_the_storage() {
    let mut u32s: SparseSet<u32> = SparseSet::new();
    u32s.insert(key(3), 10);
    u32s.share(key(3), key(1)).unwrap();
    let raw = u32s.raw_view();
    assert_eq!(raw.len(), 1);
    assert_eq!(raw.key_at(0), key(3));
    assert_eq!(raw.index_of(key(3)), Some(0));
    assert_eq!(raw.index_of(key(1)), Some(0));
    assert_eq!(raw.index_of(key(0)), None);
}
