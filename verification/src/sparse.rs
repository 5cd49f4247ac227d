//! Sparse slots and the sharing resolver.
//!
//! A storage keeps, for every entity index, a [`Slot`]. A shared slot holds
//! no data of its own: it redirects to another entity. The redirects are never
//! materialised as a graph; a lookup follows them again each time, so that
//! changing one link changes at once what every descendant resolves to.

use vstd::prelude::*;
use vstd::set_lib::{lemma_int_range, lemma_len_subset, set_int_range};
use crate::entity::Key;

verus! {

/// What a storage records for one entity index.
#[derive(Clone, Copy, Debug, PartialEq, Eq, Structural)]
pub enum Slot {
    /// The entity has no component here.
    Absent,
    /// The entity owns the component at this position of the dense array.
    Owned(usize),
    /// The entity presents the component of another entity.
    Shared(Key),
}

/// The slot of entity index `i`. The map holds the slots that are not
/// absent; every other index is absent.
pub open spec fn slot_at(slots: Map<int, Slot>, i: int) -> Slot {
    if slots.contains_key(i) {
        slots[i]
    } else {
        Slot::Absent
    }
}

/// Following exactly `hops` redirects from entity index `i` ends on a slot
/// that owns dense position `d`.
pub open spec fn reaches(slots: Map<int, Slot>, i: int, hops: nat, d: usize) -> bool
    decreases hops,
{
    match slot_at(slots, i) {
        Slot::Owned(x) => hops == 0 && x == d,
        Slot::Shared(owner) => hops > 0 && reaches(slots, owner.index as int, (hops - 1) as nat, d),
        Slot::Absent => false,
    }
}

/// Entity index `i` resolves, through zero or more redirects, to the slot
/// that owns dense position `d`.
pub open spec fn resolves_to(slots: Map<int, Slot>, i: int, d: usize) -> bool {
    exists|hops: nat| reaches(slots, i, hops, d)
}

/// The dense position that entity index `i` resolves to, if its chain of
/// redirects ends in owned data. A chain that ends on an absent slot, or
/// that runs into a cycle, resolves to nothing.
pub open spec fn resolve(slots: Map<int, Slot>, i: int) -> Option<usize> {
    if exists|d: usize| resolves_to(slots, i, d) {
        Some(choose|d: usize| resolves_to(slots, i, d))
    } else {
        None
    }
}

/// A chain of redirects ends in at most one place, after one number of hops.
pub proof fn lemma_reaches_unique(
    slots: Map<int, Slot>,
    i: int,
    hops1: nat,
    d1: usize,
    hops2: nat,
    d2: usize,
)
    requires
        reaches(slots, i, hops1, d1),
        reaches(slots, i, hops2, d2),
    ensures
        hops1 == hops2,
        d1 == d2,
    decreases hops1,
{
    if let Slot::Shared(owner) = slot_at(slots, i) {
        lemma_reaches_unique(
            slots,
            owner.index as int,
            (hops1 - 1) as nat,
            d1,
            (hops2 - 1) as nat,
            d2,
        );
    }
}

/// A chain that ends on dense position `d` ends on a slot that owns it.
pub proof fn lemma_reaches_owned(slots: Map<int, Slot>, i: int, hops: nat, d: usize)
    requires
        reaches(slots, i, hops, d),
    ensures
        exists|last: int| slot_at(slots, last) == Slot::Owned(d),
    decreases hops,
{
    match slot_at(slots, i) {
        Slot::Shared(owner) => {
            lemma_reaches_owned(slots, owner.index as int, (hops - 1) as nat, d);
        },
        _ => {
            assert(slot_at(slots, i) == Slot::Owned(d));
        },
    }
}

/// `resolve` returns `d` exactly when the chain from `i` ends on the slot
/// owning `d`.
pub proof fn lemma_resolve_iff(slots: Map<int, Slot>, i: int, d: usize)
    ensures
        resolve(slots, i) == Some(d) <==> resolves_to(slots, i, d),
{
    if resolves_to(slots, i, d) {
        let c = choose|c: usize| resolves_to(slots, i, c);
        let h1 = choose|hops: nat| reaches(slots, i, hops, d);
        let h2 = choose|hops: nat| reaches(slots, i, hops, c);
        lemma_reaches_unique(slots, i, h1, d, h2, c);
    }
}

/// An owning slot resolves to its own dense position.
pub proof fn lemma_resolve_owned(slots: Map<int, Slot>, i: int, d: usize)
    requires
        slot_at(slots, i) == Slot::Owned(d),
    ensures
        resolve(slots, i) == Some(d),
{
    assert(reaches(slots, i, 0, d));
    lemma_resolve_iff(slots, i, d);
}

/// An absent slot resolves to nothing.
pub proof fn lemma_resolve_absent(slots: Map<int, Slot>, i: int)
    requires
        slot_at(slots, i) == Slot::Absent,
    ensures
        resolve(slots, i).is_none(),
{
    assert forall|d: usize| !resolves_to(slots, i, d) by {
        assert forall|hops: nat| !reaches(slots, i, hops, d) by {}
    }
}

/// A shared slot resolves to whatever its owner resolves to.
pub proof fn lemma_resolve_shared(slots: Map<int, Slot>, i: int, owner: Key)
    requires
        slot_at(slots, i) == Slot::Shared(owner),
    ensures
        resolve(slots, i) == resolve(slots, owner.index as int),
{
    let o = owner.index as int;
    assert forall|d: usize| resolves_to(slots, i, d) <==> resolves_to(slots, o, d) by {
        if resolves_to(slots, i, d) {
            let h = choose|hops: nat| reaches(slots, i, hops, d);
            assert(reaches(slots, o, (h - 1) as nat, d));
        }
        if resolves_to(slots, o, d) {
            let h = choose|hops: nat| reaches(slots, o, hops, d);
            assert(reaches(slots, i, h + 1, d));
        }
    }
    match resolve(slots, o) {
        Some(d) => {
            lemma_resolve_iff(slots, o, d);
            lemma_resolve_iff(slots, i, d);
        },
        None => {
            if let Some(d) = resolve(slots, i) {
                lemma_resolve_iff(slots, i, d);
                lemma_resolve_iff(slots, o, d);
            }
        },
    }
}

/// The entity index that a slot redirects to, if it is shared.
pub open spec fn redirect(slot: Slot) -> Option<int> {
    match slot {
        Slot::Shared(owner) => Some(owner.index as int),
        _ => None,
    }
}

/// `path` lists entity indices whose slots are all shared, each redirecting
/// to the next one in the list.
pub open spec fn is_chain(slots: Map<int, Slot>, path: Seq<int>) -> bool {
    forall|j: int|
        0 <= j < path.len() ==> {
            &&& redirect(slot_at(slots, #[trigger] path[j])).is_some()
            &&& j + 1 < path.len() ==> redirect(slot_at(slots, path[j])) == Some(path[j + 1])
        }
}

/// Whatever the start of a chain reaches, it reaches through every later
/// link of the chain, with the hops in between already spent.
proof fn lemma_reaches_along(
    slots: Map<int, Slot>,
    path: Seq<int>,
    a: int,
    j: int,
    hops: nat,
    d: usize,
)
    requires
        is_chain(slots, path),
        0 <= a <= j < path.len(),
        reaches(slots, path[a], hops, d),
    ensures
        hops >= j - a,
        reaches(slots, path[j], (hops - (j - a)) as nat, d),
    decreases j - a,
{
    if a < j {
        lemma_reaches_along(slots, path, a, j - 1, hops, d);
        assert(redirect(slot_at(slots, path[j - 1])) == Some(path[j]));
    }
}

/// A chain that comes back to an index it has already visited never ends in
/// owned data.
proof fn lemma_cycle_unresolved(
    slots: Map<int, Slot>,
    path: Seq<int>,
    a: int,
    b: int,
    hops: nat,
    d: usize,
)
    requires
        is_chain(slots, path),
        0 <= a < b < path.len(),
        path[a] == path[b],
    ensures
        !reaches(slots, path[a], hops, d),
    decreases hops,
{
    if reaches(slots, path[a], hops, d) {
        lemma_reaches_along(slots, path, a, b, hops, d);
        lemma_cycle_unresolved(slots, path, a, b, (hops - (b - a)) as nat, d);
    }
}

/// More than `len` indices below `len` cannot all differ.
proof fn lemma_revisit(path: Seq<int>, len: int)
    requires
        0 <= len < path.len(),
        forall|j: int| 0 <= j < path.len() ==> 0 <= #[trigger] path[j] < len,
    ensures
        exists|a: int, b: int| 0 <= a < b < path.len() && path[a] == path[b],
{
    if path.no_duplicates() {
        path.unique_seq_to_set();
        lemma_int_range(0, len);
        assert(path.to_set().subset_of(set_int_range(0, len)));
        lemma_len_subset(path.to_set(), set_int_range(0, len));
    } else {
        let (i, j) = choose|i: int, j: int|
            0 <= i < path.len() && 0 <= j < path.len() && i != j && path[i] == path[j];
        if i < j {
            assert(0 <= i < j < path.len() && path[i] == path[j]);
        } else {
            assert(0 <= j < i < path.len() && path[j] == path[i]);
        }
    }
}

/// The slots of a sparse array: position `i` holds the slot of entity index
/// `i`, and absent slots are left out of the map.
pub open spec fn slot_map(sparse: Seq<Slot>) -> Map<int, Slot> {
    Map::new(|i: int| 0 <= i < sparse.len() && sparse[i] != Slot::Absent, |i: int| sparse[i])
}

/// A chain that revisits an index resolves to nothing, from its start on.
pub proof fn lemma_revisiting_chain_unresolved(slots: Map<int, Slot>, path: Seq<int>, a: int, b: int)
    requires
        is_chain(slots, path),
        0 <= a < b < path.len(),
        path[a] == path[b],
    ensures
        resolve(slots, path[0]).is_none(),
{
    assert forall|d: usize| !resolves_to(slots, path[0], d) by {
        if resolves_to(slots, path[0], d) {
            let h = choose|h: nat| reaches(slots, path[0], h, d);
            lemma_reaches_along(slots, path, 0, a, h, d);
            lemma_cycle_unresolved(slots, path, a, b, (h - a) as nat, d);
        }
    }
}

/// Follows the redirects from entity index `index` and returns the dense
/// position of the owning slot that the chain ends on.
///
/// The walk only reads. It takes at most one hop per slot of the array: a
/// chain with more hops than that has visited some index twice and can never
/// end in owned data.
pub fn index_of(sparse: &[Slot], index: usize) -> (found: Option<usize>)
    ensures
        found == resolve(slot_map(sparse@), index as int),
{
    let len = sparse.len();
    let ghost slots = slot_map(sparse@);
    let ghost mut path: Seq<int> = Seq::empty();
    let mut cur = index;
    let mut hops: usize = 0;
    while hops < len
        invariant
            len == sparse.len(),
            slots == slot_map(sparse@),
            hops == path.len(),
            hops <= len,
            is_chain(slots, path),
            forall|j: int| 0 <= j < path.len() ==> 0 <= #[trigger] path[j] < len,
            path.len() > 0 ==> redirect(slot_at(slots, path.last())) == Some(cur as int),
            path.len() > 0 ==> resolve(slots, path[0]) == resolve(slots, index as int),
            resolve(slots, index as int) == resolve(slots, cur as int),
        decreases len - hops,
    {
        if cur >= len {
            proof {
                lemma_resolve_absent(slots, cur as int);
            }
            return None;
        }
        match sparse[cur] {
            Slot::Absent => {
                proof {
                    lemma_resolve_absent(slots, cur as int);
                }
                return None;
            },
            Slot::Owned(d) => {
                proof {
                    lemma_resolve_owned(slots, cur as int, d);
                }
                return Some(d);
            },
            Slot::Shared(owner) => {
                proof {
                    lemma_resolve_shared(slots, cur as int, owner);
                    let longer = path.push(cur as int);
                    assert forall|j: int| 0 <= j < longer.len() implies {
                        &&& redirect(slot_at(slots, #[trigger] longer[j])).is_some()
                        &&& j + 1 < longer.len() ==> redirect(slot_at(slots, longer[j])) == Some(
                            longer[j + 1],
                        )
                    } by {
                        if j < path.len() {
                            assert(longer[j] == path[j]);
                        }
                    }
                    path = longer;
                }
                cur = owner.index;
                hops += 1;
            },
        }
    }
    proof {
        // Every slot of the array has been hopped over: the walk is caught in a cycle,
        // unless it has just stepped off onto an absent slot.
        let here = slot_at(slots, cur as int);
        if here == Slot::Absent {
            lemma_resolve_absent(slots, cur as int);
        } else {
            let full = path.push(cur as int);
            assert forall|j: int| 0 <= j < full.len() implies 0 <= #[trigger] full[j] < len by {
                if j < path.len() {
                    assert(full[j] == path[j]);
                }
            }
            lemma_revisit(full, len as int);
            let (a, b) = choose|a: int, b: int| 0 <= a < b < full.len() && full[a] == full[b];
            assert(full[a] == path[a]);
            if b < path.len() {
                assert(full[b] == path[b]);
                lemma_revisiting_chain_unresolved(slots, path, a, b);
            } else {
                // `cur` is an index already on the path, so its slot is shared too
                assert(redirect(slot_at(slots, path[a])).is_some());
                assert forall|j: int| 0 <= j < full.len() implies {
                    &&& redirect(slot_at(slots, #[trigger] full[j])).is_some()
                    &&& j + 1 < full.len() ==> redirect(slot_at(slots, full[j])) == Some(
                        full[j + 1],
                    )
                } by {
                    if j < path.len() {
                        assert(full[j] == path[j]);
                    }
                }
                lemma_revisiting_chain_unresolved(slots, full, a, b);
                assert(full[0] == path[0]);
            }
        }
    }
    None
}

} // verus!
