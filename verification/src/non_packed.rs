//! The presence-filtered cursor over several storages.
//!
//! One storage drives: its dense keys, in dense order, are the candidates.
//! A candidate is yielded where every storage presents a component for it,
//! its own or a shared one; any other candidate is passed over in silence.
//! The cursor is generic in the number `N` of storages. It yields, for each
//! storage, a dense position; the typed cursors built on it turn positions
//! into components.

use vstd::prelude::*;
use vstd::array::array_fill_for_copy_types;
use crate::entity::Key;
use crate::storage::{lemma_resolve_dense, RawStorage, RawView};

verus! {

/// The mathematical content of a cursor.
pub struct EngineView {
    /// The bookkeeping of each storage walked.
    pub storages: Seq<RawStorage>,
    /// Which of the storages drives.
    pub array: int,
    /// The dense position, in the driving storage, of the next candidate.
    pub current: int,
    /// The dense position that no candidate reaches.
    pub end: int,
}

/// The key of the candidate at position `p` of the driving storage.
pub open spec fn candidate_key(storages: Seq<RawStorage>, array: int, p: int) -> Key {
    storages[array].keys[p]
}

/// The dense position, in storage `s`, of the component that candidate `p`
/// presents there.
pub open spec fn position_in(storages: Seq<RawStorage>, array: int, s: int, p: int) -> Option<
    usize,
> {
    storages[s].position_of(candidate_key(storages, array, p))
}

/// Candidate `p` presents a component in every storage.
pub open spec fn is_complete(storages: Seq<RawStorage>, array: int, p: int) -> bool {
    forall|s: int|
        0 <= s < storages.len() ==> (#[trigger] position_in(storages, array, s, p)).is_some()
}

/// The dense positions of candidate `p`, one for each storage.
pub open spec fn positions_of(storages: Seq<RawStorage>, array: int, p: int) -> Seq<usize> {
    Seq::new(storages.len(), |s: int| position_in(storages, array, s, p).unwrap())
}

/// The complete candidates among positions `lo` to `hi`, in dense order.
pub open spec fn complete_between(storages: Seq<RawStorage>, array: int, lo: int, hi: int) -> Seq<
    int,
>
    decreases hi - lo,
{
    if lo >= hi {
        Seq::empty()
    } else if is_complete(storages, array, lo) {
        seq![lo] + complete_between(storages, array, lo + 1, hi)
    } else {
        complete_between(storages, array, lo + 1, hi)
    }
}

/// Storage `array` has the fewest owned components, and is the first to
/// have so few.
pub open spec fn is_first_smallest(storages: Seq<RawStorage>, array: int) -> bool {
    &&& 0 <= array < storages.len()
    &&& forall|s: int|
        0 <= s < storages.len() ==> storages[array].keys.len() <= (#[trigger] storages[s]).keys.len()
    &&& forall|s: int|
        0 <= s < array ==> storages[array].keys.len() < (#[trigger] storages[s]).keys.len()
}

impl EngineView {
    /// Every storage is consistent, one of them drives, and the cursor lies
    /// inside the dense array of the driving storage.
    pub open spec fn consistent(self) -> bool {
        &&& 0 <= self.array < self.storages.len()
        &&& forall|s: int|
            0 <= s < self.storages.len() ==> (#[trigger] self.storages[s]).consistent()
        &&& 0 <= self.current <= self.end <= self.storages[self.array].keys.len()
    }

    /// The key of the candidate at position `p` of the driving storage.
    pub open spec fn candidate(self, p: int) -> Key {
        candidate_key(self.storages, self.array, p)
    }

    /// The dense position, in storage `s`, of the component that candidate
    /// `p` presents there.
    pub open spec fn position(self, s: int, p: int) -> Option<usize> {
        position_in(self.storages, self.array, s, p)
    }

    /// Candidate `p` presents a component in every storage.
    pub open spec fn complete(self, p: int) -> bool {
        is_complete(self.storages, self.array, p)
    }

    /// The dense positions of candidate `p`, one for each storage.
    pub open spec fn tuple(self, p: int) -> Seq<usize> {
        positions_of(self.storages, self.array, p)
    }

    /// The candidates that the cursor has yet to yield, in the order in which
    /// a sequence of pulls yields them.
    pub open spec fn pending(self) -> Seq<int> {
        complete_between(self.storages, self.array, self.current, self.end)
    }

    /// The cursor moved to position `current`.
    pub open spec fn at(self, current: int) -> EngineView {
        EngineView { current, ..self }
    }

    /// The cursor over the positions `current` to `end`.
    pub open spec fn between(self, current: int, end: int) -> EngineView {
        EngineView { current, end, ..self }
    }

    /// Position `p` is the first complete candidate at or after the cursor.
    pub open spec fn first_complete(self, p: int) -> bool {
        &&& self.current <= p < self.end
        &&& self.complete(p)
        &&& forall|q: int|
            self.current <= q < p ==> !#[trigger] is_complete(self.storages, self.array, q)
    }

    /// No candidate left is complete.
    pub open spec fn none_complete(self) -> bool {
        forall|q: int|
            self.current <= q < self.end ==> !#[trigger] is_complete(self.storages, self.array, q)
    }
}

/// In the driving storage, a candidate's component lies at the candidate's
/// own position: no lookup is needed there.
pub proof fn lemma_driver_position(view: EngineView, p: int)
    requires
        view.consistent(),
        0 <= p < view.storages[view.array].keys.len(),
    ensures
        view.position(view.array, p) == Some(p as usize),
{
    lemma_resolve_dense(view.storages[view.array], p);
}

/// The cursor over `N` storages. It borrows their bookkeeping for as long
/// as it lives, and owns no data.
pub struct NonPacked<'a, const N: usize> {
    storages: [RawView<'a>; N],
    current: usize,
    end: usize,
    array: usize,
}

impl<'a, const N: usize> View for NonPacked<'a, N> {
    type V = EngineView;

    closed spec fn view(&self) -> EngineView {
        EngineView {
            storages: Seq::new(N as nat, |s: int| self.storages@[s]@),
            array: self.array as int,
            current: self.current as int,
            end: self.end as int,
        }
    }
}

impl<'a, const N: usize> NonPacked<'a, N> {
    /// The cursor is well formed: its view is consistent.
    pub open spec fn wf(&self) -> bool {
        self@.consistent()
    }

    /// A cursor over all the candidates of the storage at `array`, which
    /// drives.
    pub fn new(storages: [RawView<'a>; N], array: usize) -> (cursor: Self)
        requires
            array < N,
            forall|s: int| 0 <= s < N ==> (#[trigger] storages@[s]).wf(),
        ensures
            cursor.wf(),
            cursor@.storages.len() == N,
            forall|s: int| 0 <= s < N ==> #[trigger] cursor@.storages[s] == storages@[s]@,
            cursor@.array == array,
            cursor@.current == 0,
            cursor@.end == storages@[array as int]@.keys.len(),
    {
        let end = storages[array].len();
        NonPacked { storages, current: 0, end, array }
    }

    /// A cursor over all the candidates of the storage that has the fewest
    /// owned components, the first of them where several have as few. No
    /// other choice of driving storage leaves fewer candidates to test.
    pub fn over_smallest(storages: [RawView<'a>; N]) -> (cursor: Self)
        requires
            N > 0,
            forall|s: int| 0 <= s < N ==> (#[trigger] storages@[s]).wf(),
        ensures
            cursor.wf(),
            cursor@.storages.len() == N,
            forall|s: int| 0 <= s < N ==> #[trigger] cursor@.storages[s] == storages@[s]@,
            is_first_smallest(cursor@.storages, cursor@.array),
            cursor@.current == 0,
            cursor@.end == cursor@.storages[cursor@.array].keys.len(),
    {
        let mut array: usize = 0;
        let mut s: usize = 1;
        while s < N
            invariant
                0 <= array < s <= N,
                forall|t: int|
                    0 <= t < s ==> storages@[array as int]@.keys.len() <= (#[trigger] storages@[t])@.keys.len(),
                forall|t: int|
                    0 <= t < array ==> storages@[array as int]@.keys.len() < (#[trigger] storages@[t])@.keys.len(),
            decreases N - s,
        {
            if storages[s].len() < storages[array].len() {
                array = s;
            }
            s += 1;
        }
        let cursor = Self::new(storages, array);
        assert forall|t: int| 0 <= t < N implies cursor@.storages[array as int].keys.len() <= (
        #[trigger] cursor@.storages[t]).keys.len() by {
            assert(cursor@.storages[t] == storages@[t]@);
        }
        assert forall|t: int| 0 <= t < array implies cursor@.storages[array as int].keys.len() < (
        #[trigger] cursor@.storages[t]).keys.len() by {
            assert(cursor@.storages[t] == storages@[t]@);
        }
        cursor
    }

    /// The dense positions of the candidate at `p`, if it presents a
    /// component in every storage.
    fn probe(&self, p: usize) -> (found: Option<(Key, [usize; N])>)
        requires
            self.wf(),
            p < self@.storages[self@.array].keys.len(),
        ensures
            match found {
                Some((key, positions)) => {
                    &&& self@.complete(p as int)
                    &&& key == self@.candidate(p as int)
                    &&& positions@ == self@.tuple(p as int)
                },
                None => !self@.complete(p as int),
            },
    {
        let key = self.storages[self.array].key_at(p);
        let mut positions: [usize; N] = array_fill_for_copy_types(0usize);
        let mut s: usize = 0;
        while s < N
            invariant
                self.wf(),
                s <= N,
                p < self@.storages[self@.array].keys.len(),
                key == self@.candidate(p as int),
                forall|t: int|
                    0 <= t < s ==> #[trigger] position_in(
                        self@.storages,
                        self@.array,
                        t,
                        p as int,
                    ) == Some(positions@[t]),
            decreases N - s,
        {
            if s == self.array {
                proof {
                    lemma_driver_position(self@, p as int);
                }
                positions[s] = p;
            } else {
                assert(self.storages@[s as int]@ == self@.storages[s as int]);
                match self.storages[s].index_of(key) {
                    Some(d) => {
                        positions[s] = d;
                    },
                    None => {
                        assert(self@.position(s as int, p as int).is_none());
                        return None;
                    },
                }
            }
            s += 1;
        }
        assert(positions@ =~= self@.tuple(p as int));
        Some((key, positions))
    }

    /// The next candidate that presents a component in every storage: its
    /// key, and its dense position in each storage.
    ///
    /// Candidates that lack a component somewhere are passed over; no partial
    /// result is ever returned. Once the end is reached, every further pull
    /// returns `None` and leaves the cursor as it is.
    pub fn next(&mut self) -> (item: Option<(Key, [usize; N])>)
        requires
            old(self).wf(),
        ensures
            final(self).wf(),
            match item {
                Some((key, positions)) => {
                    let p = final(self)@.current - 1;
                    &&& old(self)@.first_complete(p)
                    &&& key == old(self)@.candidate(p)
                    &&& positions@ == old(self)@.tuple(p)
                    &&& final(self)@ == old(self)@.at(p + 1)
                },
                None => old(self)@.none_complete() && final(self)@ == old(self)@.at(old(self)@.end),
            },
    {
        while self.current < self.end
            invariant
                self.wf(),
                old(self)@.current <= self@.current,
                self@ == old(self)@.at(self@.current),
                forall|q: int|
                    old(self)@.current <= q < self@.current ==> !#[trigger] is_complete(
                        old(self)@.storages,
                        old(self)@.array,
                        q,
                    ),
            decreases self@.end - self@.current,
        {
            let p = self.current;
            self.current += 1;
            if let Some(found) = self.probe(p) {
                assert(self@.tuple(p as int) == old(self)@.tuple(p as int));
                return Some(found);
            }
        }
        None
    }

    /// A second cursor over the same storages, at the same place.
    pub(crate) fn clone(&self) -> (copy: Self)
        ensures
            copy@ == self@,
    {
        NonPacked {
            storages: self.storages,
            current: self.current,
            end: self.end,
            array: self.array,
        }
    }

    /// Divides the candidates left between two cursors, at the midpoint.
    ///
    /// With two candidates or more left, the first cursor keeps the lower
    /// half and the second takes the upper half, which is the longer one
    /// where the number is odd. With fewer, the cursor comes back as it was,
    /// with no partner. Only the range is divided: no storage is touched,
    /// and both cursors borrow the same ones.
    pub fn split(self) -> (halves: (Self, Option<Self>))
        requires
            self.wf(),
        ensures
            halves.0.wf(),
            match halves.1 {
                Some(upper) => {
                    let mid = self@.current + (self@.end - self@.current) / 2;
                    &&& self@.end - self@.current >= 2
                    &&& upper.wf()
                    &&& halves.0@ == self@.between(self@.current, mid)
                    &&& upper@ == self@.between(mid, self@.end)
                },
                None => self@.end - self@.current < 2 && halves.0@ == self@,
            },
    {
        let mut lower = self;
        let len = lower.end - lower.current;
        if len >= 2 {
            let mut upper = lower.clone();
            upper.current += len / 2;
            lower.end = upper.current;
            (lower, Some(upper))
        } else {
            (lower, None)
        }
    }

    /// All the candidates left that present a component in every storage, in
    /// dense order of the driving storage: what a sequence of pulls yields.
    pub fn collect(&mut self) -> (items: Vec<(Key, [usize; N])>)
        requires
            old(self).wf(),
        ensures
            final(self).wf(),
            final(self)@ == old(self)@.at(old(self)@.end),
            items@.len() == old(self)@.pending().len(),
            forall|k: int|
                0 <= k < items@.len() ==> {
                    let p = old(self)@.pending()[k];
                    &&& (#[trigger] items@[k]).0 == old(self)@.candidate(p)
                    &&& items@[k].1@ == old(self)@.tuple(p)
                },
    {
        let mut items: Vec<(Key, [usize; N])> = Vec::new();
        let ghost start = self@;
        loop
            invariant
                self.wf(),
                start == old(self)@,
                start.current <= self@.current,
                self@ == start.at(self@.current),
                start.pending() == start.pending().subrange(0, items@.len() as int)
                    + self@.pending(),
                items@.len() <= start.pending().len(),
                forall|k: int|
                    0 <= k < items@.len() ==> {
                        let p = start.pending()[k];
                        &&& (#[trigger] items@[k]).0 == start.candidate(p)
                        &&& items@[k].1@ == start.tuple(p)
                    },
            ensures
                self.wf(),
                self@ == start.at(start.end),
                items@.len() == start.pending().len(),
                forall|k: int|
                    0 <= k < items@.len() ==> {
                        let p = start.pending()[k];
                        &&& (#[trigger] items@[k]).0 == start.candidate(p)
                        &&& items@[k].1@ == start.tuple(p)
                    },
            decreases self@.end - self@.current,
        {
            let ghost before = self@;
            let ghost taken = items@.len() as int;
            match self.next() {
                Some(item) => {
                    proof {
                        let p = self@.current - 1;
                        lemma_pending_first(before, p);
                        assert(start.pending()[taken] == p);
                        assert(start.pending().subrange(0, taken + 1) =~= start.pending().subrange(
                            0,
                            taken,
                        ).push(p));
                        assert(start.pending() =~= start.pending().subrange(0, taken + 1)
                            + self@.pending());
                    }
                    items.push(item);
                },
                None => {
                    proof {
                        lemma_pending_none(before);
                        lemma_pending_none(self@);
                    }
                    break ;
                },
            }
        }
        items
    }

    /// A lower and an upper bound on the number of candidates yet to be
    /// yielded. How many of the candidates left are complete is not known
    /// before they are tested, so the lower bound is 0.
    pub fn size_hint(&self) -> (hint: (usize, Option<usize>))
        requires
            self.wf(),
        ensures
            hint.0 == 0,
            hint.1 == Some((self@.end - self@.current) as usize),
    {
        (0, Some(self.end - self.current))
    }
}

/// The dense positions of a complete candidate lie inside the dense arrays
/// of their storages.
pub proof fn lemma_tuple_in_bounds(view: EngineView, p: int, s: int)
    requires
        view.consistent(),
        view.complete(p),
        0 <= s < view.storages.len(),
    ensures
        view.tuple(p)[s] < view.storages[s].keys.len(),
        view.position(s, p) == Some(view.tuple(p)[s]),
{
    assert(position_in(view.storages, view.array, s, p).is_some());
    crate::storage::lemma_resolve_in_bounds(view.storages[s], view.candidate(p).index as int);
}

/// Where `p` is the first complete candidate, it is the first one pending,
/// and the cursor moved past it has the rest pending.
pub proof fn lemma_pending_first(view: EngineView, p: int)
    requires
        view.first_complete(p),
    ensures
        view.pending() == seq![p] + view.at(p + 1).pending(),
    decreases p - view.current,
{
    if view.current < p {
        lemma_pending_first(view.at(view.current + 1), p);
    }
}

/// Where no candidate left is complete, none is pending.
pub proof fn lemma_pending_none(view: EngineView)
    requires
        view.none_complete(),
    ensures
        view.pending() == Seq::<int>::empty(),
    decreases view.end - view.current,
{
    if view.current < view.end {
        lemma_pending_none(view.at(view.current + 1));
    }
}

/// The candidates pending on a range are those pending on its lower part,
/// followed by those pending on its upper part.
pub proof fn lemma_pending_split(view: EngineView, mid: int)
    requires
        view.current <= mid <= view.end,
    ensures
        view.pending() == view.between(view.current, mid).pending() + view.between(
            mid,
            view.end,
        ).pending(),
    decreases mid - view.current,
{
    let lower = view.between(view.current, mid);
    let upper = view.between(mid, view.end);
    if view.current < mid {
        let next = view.at(view.current + 1);
        lemma_pending_split(next, mid);
        assert(next.between(next.current, mid) == lower.at(view.current + 1));
        assert(next.between(mid, next.end) == upper);
        if view.complete(view.current) {
            assert(view.pending() =~= seq![view.current] + (lower.at(view.current + 1).pending()
                + upper.pending()));
            assert(view.pending() =~= lower.pending() + upper.pending());
        }
    } else {
        assert(view.pending() =~= lower.pending() + upper.pending());
    }
}

/// The candidates that come out where a cursor is split again and again,
/// `depth` times at most along each branch, and every leaf is then pulled to
/// its end: those of the lower leaves first.
pub open spec fn pending_of_leaves(view: EngineView, depth: nat) -> Seq<int>
    decreases depth,
{
    if depth == 0 || view.end - view.current < 2 {
        view.pending()
    } else {
        let mid = view.current + (view.end - view.current) / 2;
        pending_of_leaves(view.between(view.current, mid), (depth - 1) as nat) + pending_of_leaves(
            view.between(mid, view.end),
            (depth - 1) as nat,
        )
    }
}

/// Splitting loses nothing, adds nothing and reorders nothing: the leaves of
/// a cursor split to any depth yield, one after the other, exactly what the
/// unsplit cursor yields, in the same order.
pub proof fn lemma_split_preserves_pending(view: EngineView, depth: nat)
    requires
        view.current <= view.end,
    ensures
        pending_of_leaves(view, depth) == view.pending(),
        pending_of_leaves(view, depth).to_multiset() == view.pending().to_multiset(),
    decreases depth,
{
    if depth > 0 && view.end - view.current >= 2 {
        let mid = view.current + (view.end - view.current) / 2;
        lemma_split_preserves_pending(view.between(view.current, mid), (depth - 1) as nat);
        lemma_split_preserves_pending(view.between(mid, view.end), (depth - 1) as nat);
        lemma_pending_split(view, mid);
    }
}

} // verus!
