use sparse_storage::arities::{NonPacked2, NonPacked3, NonPacked4};
use sparse_storage::entity::Key;
use sparse_storage::non_packed::NonPacked;
use sparse_storage::storage::SparseSet;

fn key(index: usize) -> Key {
    Key::new(index, 0)
}

fn filled(entries: &[(usize, u32)]) -> SparseSet<u32> {
    let mut storage = SparseSet::new();
    for &(index, value) in entries {
        storage.insert(key(index), value);
    }
    storage
}

#[test]
fn pairs_are_yielded_where_both_storages_have_a_component() {
    let a = filled(&[(0, 10), (1, 11), (2, 12), (3, 13)]);
    let mut b: SparseSet<&str> = SparseSet::new();
    b.insert(key(3), "three");
    b.insert(key(1), "one");
    b.insert(key(7), "seven");
    // `b` is the smaller storage: it drives, in its dense order
    let mut iter = NonPacked2::new(&a, &b);
    assert_eq!(iter.size_hint(), (0, Some(3)));
    assert_eq!(iter.next(), Some((&13, &"three")));
    assert_eq!(iter.size_hint(), (0, Some(2)));
    assert_eq!(iter.next(), Some((&11, &"one")));
    assert_eq!(iter.size_hint(), (0, Some(1)));
    // entity 7 has no component in `a`: it is passed over
    assert_eq!(iter.next(), None);
    assert_eq!(iter.size_hint(), (0, Some(0)));
    assert_eq!(iter.next(), None);
}

#[test]
fn the_first_of_the_smallest_storages_drives() {
    let a = filled(&[(2, 12), (0, 10)]);
    let b = filled(&[(0, 20), (2, 22)]);
    let mut iter = NonPacked2::new(&a, &b);
    assert_eq!(iter.collect(), vec![(&12, &22), (&10, &20)]);
    let mut iter = NonPacked2::new(&b, &a);
    assert_eq!(iter.collect(), vec![(&20, &10), (&22, &12)]);
}

#[test]
fn shared_components_are_found_in_the_storages_that_do_not_drive() {
    let mut a = filled(&[(0, 10)]);
    a.share(key(0), key(1)).unwrap();
    a.share(key(1), key(2)).unwrap();
    a.share(key(9), key(3)).unwrap();
    let b = filled(&[(0, 20), (1, 21), (2, 22), (3, 23), (4, 24)]);
    let mut c: SparseSet<u32> = SparseSet::new();
    for index in 0..6 {
        c.insert(key(index), 30 + index as u32);
    }
    // `a` owns one component only, but presents it for three entities
    let mut iter = NonPacked::new([a.raw_view(), b.raw_view()], 1);
    assert_eq!(iter.next(), Some((key(0), [0, 0])));
    assert_eq!(iter.next(), Some((key(1), [0, 1])));
    assert_eq!(iter.next(), Some((key(2), [0, 2])));
    // entity 3 shares an entity without a component, entity 4 has none
    assert_eq!(iter.next(), None);
    // driven by the smallest storage, only the owner is a candidate
    let mut iter = NonPacked3::new(&a, &b, &c);
    assert_eq!(iter.collect(), vec![(&10, &20, &30)]);
}

#[test]
fn with_id_puts_the_key_first() {
    let a = filled(&[(5, 50), (6, 60)]);
    let b = filled(&[(6, 61), (5, 51), (8, 81)]);
    let mut iter = NonPacked2::new(&a, &b).with_id();
    assert_eq!(iter.size_hint(), (0, Some(2)));
    assert_eq!(iter.next(), Some((key(5), (&50, &51))));
    assert_eq!(iter.next(), Some((key(6), (&60, &61))));
    assert_eq!(iter.next(), None);
}

#[test]
fn with_id_yields_the_stored_generation() {
    let mut a: SparseSet<u32> = SparseSet::new();
    a.insert(Key::new(1, 7), 1);
    let mut b: SparseSet<u32> = SparseSet::new();
    b.insert(Key::new(1, 7), 2);
    b.insert(Key::new(2, 0), 3);
    let mut iter = NonPacked2::new(&a, &b).with_id();
    assert_eq!(iter.next(), Some((Key::new(1, 7), (&1, &2))));
    assert_eq!(iter.next(), None);
}

#[test]
fn filtered_suppresses_rejected_items_only() {
    let a = filled(&[(0, 1), (1, 2), (2, 3), (3, 4), (4, 5)]);
    let b = filled(&[(0, 10), (1, 20), (2, 30), (3, 40), (4, 50), (5, 60)]);
    let mut iter = NonPacked2::new(&a, &b).filtered(|item: &(&u32, &u32)| *item.0 % 2 == 1);
    assert_eq!(iter.size_hint(), (0, Some(5)));
    assert_eq!(iter.next(), Some((&1, &10)));
    // the bounds are those of the cursor underneath
    assert_eq!(iter.size_hint(), (0, Some(4)));
    assert_eq!(iter.next(), Some((&3, &30)));
    assert_eq!(iter.next(), Some((&5, &50)));
    assert_eq!(iter.size_hint(), (0, Some(0)));
    assert_eq!(iter.next(), None);
    assert_eq!(iter.next(), None);
}

#[test]
fn filtered_rejecting_everything_reaches_the_end() {
    let a = filled(&[(0, 1), (1, 2)]);
    let b = filled(&[(0, 10), (1, 20)]);
    let mut iter = NonPacked2::new(&a, &b).filtered(|_: &(&u32, &u32)| false);
    assert_eq!(iter.next(), None);
    assert_eq!(iter.size_hint(), (0, Some(0)));
}

#[test]
fn empty_storage_yields_nothing() {
    let a = filled(&[(0, 1), (1, 2)]);
    let b: SparseSet<u32> = SparseSet::new();
    let mut iter = NonPacked2::new(&a, &b);
    assert_eq!(iter.size_hint(), (0, Some(0)));
    assert_eq!(iter.next(), None);
    let (lower, upper) = NonPacked2::new(&a, &b).split();
    assert!(upper.is_none());
    assert_eq!(lower.size_hint(), (0, Some(0)));
}

#[test]
fn split_divides_at_the_midpoint() {
    let a = filled(&[(0, 0), (1, 1), (2, 2), (3, 3), (4, 4)]);
    let b = filled(&[(0, 10), (1, 11), (2, 12), (3, 13), (4, 14), (5, 15)]);
    let (mut lower, upper) = NonPacked2::new(&a, &b).split();
    let mut upper = upper.unwrap();
    // 5 candidates: 2 below the midpoint, 3 from it on
    assert_eq!(lower.size_hint(), (0, Some(2)));
    assert_eq!(upper.size_hint(), (0, Some(3)));
    assert_eq!(lower.collect(), vec![(&0, &10), (&1, &11)]);
    assert_eq!(upper.collect(), vec![(&2, &12), (&3, &13), (&4, &14)]);
}

#[test]
fn split_of_fewer_than_two_has_no_partner() {
    let a = filled(&[(3, 30)]);
    let b = filled(&[(3, 31), (4, 41)]);
    let (mut lower, upper) = NonPacked2::new(&a, &b).split();
    assert!(upper.is_none());
    assert_eq!(lower.size_hint(), (0, Some(1)));
    assert_eq!(lower.collect(), vec![(&30, &31)]);
    let (lower, upper) = lower.split();
    assert!(upper.is_none());
    assert_eq!(lower.size_hint(), (0, Some(0)));
}

#[test]
fn split_of_two_gives_one_each() {
    let a = filled(&[(0, 0), (1, 1)]);
    let b = filled(&[(0, 10), (1, 11), (2, 12)]);
    let (mut lower, upper) = NonPacked2::new(&a, &b).split();
    let mut upper = upper.unwrap();
    assert_eq!(lower.collect(), vec![(&0, &10)]);
    assert_eq!(upper.collect(), vec![(&1, &11)]);
}

fn leaves<'a>(
    cursor: NonPacked2<'a, u32, u32>,
    depth: usize,
    out: &mut Vec<Vec<(&'a u32, &'a u32)>>,
) {
    if depth == 0 {
        let mut cursor = cursor;
        out.push(cursor.collect());
        return;
    }
    match cursor.split() {
        (lower, Some(upper)) => {
            leaves(lower, depth - 1, out);
            leaves(upper, depth - 1, out);
        }
        (mut lower, None) => out.push(lower.collect()),
    }
}

#[test]
fn split_leaves_yield_what_the_whole_cursor_yields() {
    for n in 0..40usize {
        let mut a: SparseSet<u32> = SparseSet::new();
        let mut b: SparseSet<u32> = SparseSet::new();
        for index in 0..n {
            a.insert(key(index), index as u32);
            // every third entity has no component in `b`
            if index % 3 != 0 {
                b.insert(key(index), 100 + index as u32);
            }
        }
        // keep `a` the smaller storage, so that it drives
        for index in n..2 * n + 1 {
            b.insert(key(index), 0);
        }
        let whole = NonPacked2::new(&a, &b).collect();
        assert_eq!(whole.len(), n - (n + 2) / 3);
        for depth in 0..7 {
            let mut out = Vec::new();
            leaves(NonPacked2::new(&a, &b), depth, &mut out);
            let joined: Vec<(&u32, &u32)> = out.into_iter().flatten().collect();
            assert_eq!(joined, whole);
        }
    }
}

#[test]
fn four_storages() {
    let a = filled(&[(0, 1), (1, 2), (2, 3)]);
    let b = filled(&[(2, 30), (1, 20), (0, 10)]);
    let mut c: SparseSet<u8> = SparseSet::new();
    c.insert(key(1), 7);
    c.share(key(1), key(2)).unwrap();
    let mut d: SparseSet<bool> = SparseSet::new();
    d.insert(key(2), true);
    d.insert(key(0), false);
    d.share(key(0), key(1)).unwrap();
    // `c` drives: its only dense key is entity 1
    let mut iter = NonPacked4::new(&a, &b, &c, &d);
    assert_eq!(iter.next(), Some((&2, &20, &7, &false)));
    assert_eq!(iter.next(), None);
    // driven by `a`, the sharing entity 2 is found too
    let mut iter = NonPacked::new([a.raw_view(), b.raw_view(), c.raw_view(), d.raw_view()], 0);
    assert_eq!(iter.collect(), vec![(key(1), [1, 1, 0, 1]), (key(2), [2, 0, 0, 0])]);
}

#[test]
fn a_single_storage_is_its_own_driver() {
    let a = filled(&[(4, 40), (2, 20)]);
    let mut iter = NonPacked::new([a.raw_view()], 0);
    assert_eq!(iter.size_hint(), (0, Some(2)));
    assert_eq!(iter.next(), Some((key(4), [0])));
    assert_eq!(iter.next(), Some((key(2), [1])));
    assert_eq!(iter.next(), None);
}

#[test]
fn over_smallest_picks_the_first_minimum() {
    let a = filled(&[(0, 1), (1, 2), (2, 3)]);
    let b = filled(&[(1, 1), (0, 2)]);
    let c = filled(&[(0, 1), (1, 2)]);
    let mut iter = NonPacked::over_smallest([a.raw_view(), b.raw_view(), c.raw_view()]);
    // `b` drives: its dense order is 1, 0
    assert_eq!(iter.collect(), vec![(key(1), [1, 0, 1]), (key(0), [0, 1, 0])]);
}
