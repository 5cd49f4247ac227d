//! The presence-filtered cursor over several storages, with its components.
//!
//! The cursor of `non_packed` finds, for each candidate, a dense position in
//! each storage. Here the positions become components: a tuple of
//! references, one into each storage, each of its own type.

use vstd::prelude::*;
use crate::columns::Columns;
use crate::entity::Key;
use crate::non_packed::{
    is_complete, lemma_pending_first, lemma_pending_none, lemma_pending_split,
    lemma_tuple_in_bounds, EngineView, NonPacked,
};

verus! {

/// The mathematical content of a cursor with components.
pub struct TuplesView<C, const N: usize> {
    /// The cursor over the bookkeeping of the storages.
    pub engine: EngineView,
    /// The dense components of the storages.
    pub columns: C,
}

impl<C: Columns<N>, const N: usize> TuplesView<C, N> {
    /// The cursor walks `N` storages, each with a component for every one of
    /// its dense keys.
    pub open spec fn consistent(self) -> bool {
        &&& self.engine.consistent()
        &&& self.engine.storages.len() == N
        &&& forall|s: int|
            0 <= s < N ==> (#[trigger] self.engine.storages[s]).keys.len() == self.columns.lens()[s]
    }

    /// The components that candidate `p` presents.
    pub open spec fn item(self, p: int) -> C::Item {
        self.columns.item_at(self.engine.tuple(p))
    }

    /// What the cursor has yet to yield, in the order in which a sequence of
    /// pulls yields it.
    pub open spec fn pending(self) -> Seq<C::Item> {
        self.engine.pending().map_values(|p: int| self.item(p))
    }

    /// The cursor moved to position `current`.
    pub open spec fn at(self, current: int) -> TuplesView<C, N> {
        TuplesView { engine: self.engine.at(current), ..self }
    }

    /// The cursor over the positions `current` to `end`.
    pub open spec fn between(self, current: int, end: int) -> TuplesView<C, N> {
        TuplesView { engine: self.engine.between(current, end), ..self }
    }
}

/// Cursor over the entities that present a component in every one of `N`
/// storages. `C` holds the components of the storages, side by side.
pub struct Tuples<'a, C, const N: usize> {
    cursor: NonPacked<'a, N>,
    columns: C,
}

impl<'a, C, const N: usize> View for Tuples<'a, C, N> {
    type V = TuplesView<C, N>;

    closed spec fn view(&self) -> TuplesView<C, N> {
        TuplesView { engine: self.cursor@, columns: self.columns }
    }
}

impl<'a, C: Columns<N> + Copy, const N: usize> Tuples<'a, C, N> {
    /// The cursor is well formed: its view is consistent.
    pub open spec fn wf(&self) -> bool {
        self@.consistent()
    }

    /// Puts the components of the storages beside a cursor over their
    /// bookkeeping.
    pub fn from_parts(cursor: NonPacked<'a, N>, columns: C) -> (tuples: Self)
        requires
            cursor.wf(),
            cursor@.storages.len() == N,
            forall|s: int|
                0 <= s < N ==> (#[trigger] cursor@.storages[s]).keys.len() == columns.lens()[s],
        ensures
            tuples.wf(),
            tuples@.engine == cursor@,
            tuples@.columns == columns,
    {
        Tuples { cursor, columns }
    }

    /// The next entity that presents a component in every storage: its key
    /// and its components.
    fn pull(&mut self) -> (item: Option<(Key, C::Item)>)
        requires
            old(self).wf(),
        ensures
            final(self).wf(),
            match item {
                Some((key, item)) => {
                    let p = final(self)@.engine.current - 1;
                    &&& old(self)@.engine.first_complete(p)
                    &&& key == old(self)@.engine.candidate(p)
                    &&& item == old(self)@.item(p)
                    &&& final(self)@ == old(self)@.at(p + 1)
                },
                None => old(self)@.engine.none_complete() && final(self)@ == old(self)@.at(
                    old(self)@.engine.end,
                ),
            },
    {
        match self.cursor.next() {
            Some((key, positions)) => {
                proof {
                    let p = self.cursor@.current - 1;
                    assert forall|s: int| 0 <= s < N implies (#[trigger] positions@[s])
                        < self.columns.lens()[s] by {
                        lemma_tuple_in_bounds(old(self)@.engine, p, s);
                    }
                }
                Some((key, self.columns.fetch(&positions)))
            },
            None => None,
        }
    }

    /// The components of the next entity that has one in every storage.
    ///
    /// Entities of the driving storage that lack a component in another,
    /// owned or shared, are passed over. Once the end is reached, every
    /// further pull returns `None`.
    pub fn next(&mut self) -> (item: Option<C::Item>)
        requires
            old(self).wf(),
        ensures
            final(self).wf(),
            match item {
                Some(item) => {
                    let p = final(self)@.engine.current - 1;
                    &&& old(self)@.engine.first_complete(p)
                    &&& item == old(self)@.item(p)
                    &&& final(self)@ == old(self)@.at(p + 1)
                },
                None => old(self)@.engine.none_complete() && final(self)@ == old(self)@.at(
                    old(self)@.engine.end,
                ),
            },
    {
        match self.pull() {
            Some((_, item)) => Some(item),
            None => None,
        }
    }

    /// All the items left, in the order in which a sequence of pulls yields
    /// them.
    pub fn collect(&mut self) -> (items: Vec<C::Item>)
        requires
            old(self).wf(),
        ensures
            final(self).wf(),
            final(self)@ == old(self)@.at(old(self)@.engine.end),
            items@ == old(self)@.pending(),
    {
        let mut items: Vec<C::Item> = Vec::new();
        let ghost start = self@;
        loop
            invariant
                self.wf(),
                start == old(self)@,
                start.engine.current <= self@.engine.current,
                self@ == start.at(self@.engine.current),
                start.engine.pending() == start.engine.pending().subrange(0, items@.len() as int)
                    + self@.engine.pending(),
                items@.len() <= start.engine.pending().len(),
                items@ == start.pending().subrange(0, items@.len() as int),
            ensures
                self.wf(),
                self@ == start.at(start.engine.end),
                items@ == start.pending(),
            decreases self@.engine.end - self@.engine.current,
        {
            let ghost before = self@;
            let ghost taken = items@.len() as int;
            match self.next() {
                Some(item) => {
                    proof {
                        let p = self@.engine.current - 1;
                        lemma_pending_first(before.engine, p);
                        assert(start.engine.pending()[taken] == p);
                        assert(start.engine.pending().subrange(0, taken + 1)
                            =~= start.engine.pending().subrange(0, taken).push(p));
                        assert(start.engine.pending() =~= start.engine.pending().subrange(
                            0,
                            taken + 1,
                        ) + self@.engine.pending());
                        assert(start.pending()[taken] == start.item(p));
                        assert(start.pending().subrange(0, taken + 1) =~= start.pending().subrange(
                            0,
                            taken,
                        ).push(item));
                    }
                    items.push(item);
                },
                None => {
                    proof {
                        lemma_pending_none(before.engine);
                        lemma_pending_none(self@.engine);
                        assert(start.pending().subrange(0, taken) =~= start.pending());
                    }
                    break ;
                },
            }
        }
        items
    }

    /// A lower and an upper bound on the number of items yet to be yielded:
    /// none may be left, and no more than there are candidates.
    pub fn size_hint(&self) -> (hint: (usize, Option<usize>))
        requires
            self.wf(),
        ensures
            hint.0 == 0,
            hint.1 == Some((self@.engine.end - self@.engine.current) as usize),
    {
        self.cursor.size_hint()
    }

    /// Divides the candidates left between two cursors, at the midpoint.
    ///
    /// With two candidates or more left, the first cursor keeps the lower
    /// half and the second takes the upper half, which is the longer one
    /// where the number is odd. With fewer, the cursor comes back as it was,
    /// with no partner. Only the range is divided: no storage is touched,
    /// and both cursors borrow the same ones.
    pub fn split(self) -> (halves: (Self, Option<Self>))
        requires
            self.wf(),
        ensures
            halves.0.wf(),
            match halves.1 {
                Some(upper) => {
                    let mid = self@.engine.current + (self@.engine.end - self@.engine.current) / 2;
                    &&& self@.engine.end - self@.engine.current >= 2
                    &&& upper.wf()
                    &&& halves.0@ == self@.between(self@.engine.current, mid)
                    &&& upper@ == self@.between(mid, self@.engine.end)
                },
                None => self@.engine.end - self@.engine.current < 2 && halves.0@ == self@,
            },
    {
        let columns = self.columns;
        let (lower, upper) = self.cursor.split();
        let lower = Tuples { cursor: lower, columns };
        match upper {
            Some(upper) => (lower, Some(Tuples { cursor: upper, columns })),
            None => (lower, None),
        }
    }

    /// The same cursor, yielding the key of each entity before its
    /// components.
    pub fn with_id(self) -> (iter: WithId<'a, C, N>)
        ensures
            iter@ == self@,
    {
        WithId(self)
    }

    /// The same cursor, yielding only the items that `pred` accepts.
    pub fn filtered<P: Fn(&C::Item) -> bool>(self, pred: P) -> (iter: Filter<'a, C, P, N>)
        ensures
            iter@ == self@,
            iter.pred() == pred,
    {
        Filter { iter: self, pred }
    }
}

/// [`Tuples`] with the key of each entity before its components.
pub struct WithId<'a, C, const N: usize>(Tuples<'a, C, N>);

impl<'a, C, const N: usize> View for WithId<'a, C, N> {
    type V = TuplesView<C, N>;

    closed spec fn view(&self) -> TuplesView<C, N> {
        self.0@
    }
}

impl<'a, C: Columns<N> + Copy, const N: usize> WithId<'a, C, N> {
    /// The cursor is well formed: its view is consistent.
    pub open spec fn wf(&self) -> bool {
        self@.consistent()
    }

    /// The key and the components of the next entity that has a component in
    /// every storage. The key is the one stored in the driving storage: no
    /// lookup is made for it.
    pub fn next(&mut self) -> (item: Option<(Key, C::Item)>)
        requires
            old(self).wf(),
        ensures
            final(self).wf(),
            match item {
                Some((key, item)) => {
                    let p = final(self)@.engine.current - 1;
                    &&& old(self)@.engine.first_complete(p)
                    &&& key == old(self)@.engine.candidate(p)
                    &&& item == old(self)@.item(p)
                    &&& final(self)@ == old(self)@.at(p + 1)
                },
                None => old(self)@.engine.none_complete() && final(self)@ == old(self)@.at(
                    old(self)@.engine.end,
                ),
            },
    {
        self.0.pull()
    }

    /// A lower and an upper bound on the number of items yet to be yielded.
    pub fn size_hint(&self) -> (hint: (usize, Option<usize>))
        requires
            self.wf(),
        ensures
            hint.0 == 0,
            hint.1 == Some((self@.engine.end - self@.engine.current) as usize),
    {
        self.0.size_hint()
    }
}

/// [`Tuples`] gated by a predicate on the yielded items.
pub struct Filter<'a, C, P, const N: usize> {
    iter: Tuples<'a, C, N>,
    pred: P,
}

impl<'a, C, P, const N: usize> View for Filter<'a, C, P, N> {
    type V = TuplesView<C, N>;

    closed spec fn view(&self) -> TuplesView<C, N> {
        self.iter@
    }
}

impl<'a, C: Columns<N> + Copy, P: Fn(&C::Item) -> bool, const N: usize> Filter<'a, C, P, N> {
    /// The predicate that gates the items.
    pub closed spec fn pred(&self) -> P {
        self.pred
    }

    /// The predicate may return `verdict` on the item of candidate `p`.
    pub open spec fn may_judge(&self, p: int, verdict: bool) -> bool {
        call_ensures(self.pred(), (&self@.item(p),), verdict)
    }

    /// The cursor is well formed, and the predicate can be called on every
    /// item.
    pub open spec fn wf(&self) -> bool {
        &&& self@.consistent()
        &&& forall|item: &C::Item| call_requires(self.pred(), (item,))
    }

    /// The next item that the predicate accepts.
    ///
    /// Items that the predicate rejects are passed over like the candidates
    /// that lack a component. The bounds of the cursor are those of the
    /// cursor underneath: the predicate only suppresses yields.
    pub fn next(&mut self) -> (item: Option<C::Item>)
        requires
            old(self).wf(),
        ensures
            final(self).wf(),
            final(self).pred() == old(self).pred(),
            match item {
                Some(item) => {
                    let p = final(self)@.engine.current - 1;
                    &&& old(self)@.engine.current <= p < old(self)@.engine.end
                    &&& old(self)@.engine.complete(p)
                    &&& item == old(self)@.item(p)
                    &&& old(self).may_judge(p, true)
                    &&& forall|q: int|
                        old(self)@.engine.current <= q < p && #[trigger] is_complete(
                            old(self)@.engine.storages,
                            old(self)@.engine.array,
                            q,
                        ) ==> old(self).may_judge(q, false)
                    &&& final(self)@ == old(self)@.at(p + 1)
                },
                None => {
                    &&& forall|q: int|
                        old(self)@.engine.current <= q < old(self)@.engine.end
                            && #[trigger] is_complete(
                            old(self)@.engine.storages,
                            old(self)@.engine.array,
                            q,
                        ) ==> old(self).may_judge(q, false)
                    &&& final(self)@ == old(self)@.at(old(self)@.engine.end)
                },
            },
    {
        loop
            invariant
                self.wf(),
                self.pred() == old(self).pred(),
                old(self)@.engine.current <= self@.engine.current,
                self@ == old(self)@.at(self@.engine.current),
                forall|q: int|
                    old(self)@.engine.current <= q < self@.engine.current && #[trigger] is_complete(
                        old(self)@.engine.storages,
                        old(self)@.engine.array,
                        q,
                    ) ==> old(self).may_judge(q, false),
            decreases self@.engine.end - self@.engine.current,
        {
            match self.iter.next() {
                Some(item) => {
                    if (self.pred)(&item) {
                        return Some(item);
                    }
                },
                None => {
                    return None;
                },
            }
        }
    }

    /// A lower and an upper bound on the number of items yet to be yielded.
    pub fn size_hint(&self) -> (hint: (usize, Option<usize>))
        requires
            self.wf(),
        ensures
            hint.0 == 0,
            hint.1 == Some((self@.engine.end - self@.engine.current) as usize),
    {
        self.iter.size_hint()
    }
}

/// The items that come out where a cursor is split again and again, `depth`
/// times at most along each branch, and every leaf is then pulled to its
/// end: those of the lower leaves first.
pub open spec fn items_of_leaves<C: Columns<N>, const N: usize>(
    view: TuplesView<C, N>,
    depth: nat,
) -> Seq<C::Item>
    decreases depth,
{
    if depth == 0 || view.engine.end - view.engine.current < 2 {
        view.pending()
    } else {
        let mid = view.engine.current + (view.engine.end - view.engine.current) / 2;
        items_of_leaves(view.between(view.engine.current, mid), (depth - 1) as nat)
            + items_of_leaves(view.between(mid, view.engine.end), (depth - 1) as nat)
    }
}

/// The items pending on a range are those pending on its lower part,
/// followed by those pending on its upper part.
pub proof fn lemma_items_split<C: Columns<N>, const N: usize>(view: TuplesView<C, N>, mid: int)
    requires
        view.engine.current <= mid <= view.engine.end,
    ensures
        view.pending() == view.between(view.engine.current, mid).pending() + view.between(
            mid,
            view.engine.end,
        ).pending(),
{
    lemma_pending_split(view.engine, mid);
    let lower = view.between(view.engine.current, mid);
    let upper = view.between(mid, view.engine.end);
    assert(view.pending() =~= lower.pending() + upper.pending());
}

/// Splitting loses nothing, adds nothing and reorders nothing: the leaves of
/// a cursor split to any depth yield, one after the other, exactly the items
/// that the unsplit cursor yields, in the same order; so the items of all
/// the leaves, however they are gathered, are the same multiset.
pub proof fn lemma_split_preserves_items<C: Columns<N>, const N: usize>(
    view: TuplesView<C, N>,
    depth: nat,
)
    requires
        view.engine.current <= view.engine.end,
    ensures
        items_of_leaves(view, depth) == view.pending(),
        items_of_leaves(view, depth).to_multiset() == view.pending().to_multiset(),
    decreases depth,
{
    if depth > 0 && view.engine.end - view.engine.current >= 2 {
        let mid = view.engine.current + (view.engine.end - view.engine.current) / 2;
        lemma_split_preserves_items(view.between(view.engine.current, mid), (depth - 1) as nat);
        lemma_split_preserves_items(view.between(mid, view.engine.end), (depth - 1) as nat);
        lemma_items_split(view, mid);
    }
}

} // verus!
