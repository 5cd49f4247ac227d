//! The cursors over two to ten storages, by name.
//!
//! Each is the cursor of `tuples` over as many slices of components, with a
//! constructor that takes the storages themselves.

use vstd::prelude::*;
use crate::non_packed::{is_first_smallest, NonPacked};
use crate::storage::SparseSet;
use crate::tuples::{Filter, Tuples, WithId};

verus! {

/// Cursor over the entities that have a component in each of 2 storages.
pub type NonPacked2<'a, A, B> = Tuples<'a, (&'a [A], &'a [B]), 2>;

/// [`NonPacked2`] gated by a predicate on the yielded items.
pub type NonPackedFilter2<'a, A, B, P> = Filter<'a, (&'a [A], &'a [B]), P, 2>;

/// [`NonPacked2`] with the key of each entity before its components.
pub type NonPackedWithId2<'a, A, B> = WithId<'a, (&'a [A], &'a [B]), 2>;

impl<'a, A, B> Tuples<'a, (&'a [A], &'a [B]), 2> {
    /// A cursor over all the entities that have a component in each of the
    /// storages. The storage with the fewest owned components drives, the
    /// first of them where several have as few.
    pub fn new(a: &'a SparseSet<A>, b: &'a SparseSet<B>) -> (cursor: Self)
        requires
            a.wf(),
            b.wf(),
        ensures
            cursor.wf(),
            cursor@.engine.storages == seq![a@.raw(), b@.raw()],
            cursor@.columns.0@ == a@.values,
            cursor@.columns.1@ == b@.values,
            is_first_smallest(cursor@.engine.storages, cursor@.engine.array),
            cursor@.engine.current == 0,
            cursor@.engine.end == cursor@.engine.storages[cursor@.engine.array].keys.len(),
    {
        let cursor = NonPacked::over_smallest([a.raw_view(), b.raw_view()]);
        assert(cursor@.storages =~= seq![a@.raw(), b@.raw()]);
        Tuples::from_parts(cursor, (a.values(), b.values()))
    }
}

/// Cursor over the entities that have a component in each of 3 storages.
pub type NonPacked3<'a, A, B, C> = Tuples<'a, (&'a [A], &'a [B], &'a [C]), 3>;

/// [`NonPacked3`] gated by a predicate on the yielded items.
pub type NonPackedFilter3<'a, A, B, C, P> = Filter<'a, (&'a [A], &'a [B], &'a [C]), P, 3>;

/// [`NonPacked3`] with the key of each entity before its components.
pub type NonPackedWithId3<'a, A, B, C> = WithId<'a, (&'a [A], &'a [B], &'a [C]), 3>;

impl<'a, A, B, C> Tuples<'a, (&'a [A], &'a [B], &'a [C]), 3> {
    /// A cursor over all the entities that have a component in each of the
    /// storages. The storage with the fewest owned components drives, the
    /// first of them where several have as few.
    pub fn new(a: &'a SparseSet<A>, b: &'a SparseSet<B>, c: &'a SparseSet<C>) -> (cursor: Self)
        requires
            a.wf(),
            b.wf(),
            c.wf(),
        ensures
            cursor.wf(),
            cursor@.engine.storages == seq![a@.raw(), b@.raw(), c@.raw()],
            cursor@.columns.0@ == a@.values,
            cursor@.columns.1@ == b@.values,
            cursor@.columns.2@ == c@.values,
            is_first_smallest(cursor@.engine.storages, cursor@.engine.array),
            cursor@.engine.current == 0,
            cursor@.engine.end == cursor@.engine.storages[cursor@.engine.array].keys.len(),
    {
        let cursor = NonPacked::over_smallest([a.raw_view(), b.raw_view(), c.raw_view()]);
        assert(cursor@.storages =~= seq![a@.raw(), b@.raw(), c@.raw()]);
        Tuples::from_parts(cursor, (a.values(), b.values(), c.values()))
    }
}

/// Cursor over the entities that have a component in each of 4 storages.
pub type NonPacked4<'a, A, B, C, D> = Tuples<'a, (&'a [A], &'a [B], &'a [C], &'a [D]), 4>;

/// [`NonPacked4`] gated by a predicate on the yielded items.
pub type NonPackedFilter4<'a, A, B, C, D, P> =
    Filter<'a, (&'a [A], &'a [B], &'a [C], &'a [D]), P, 4>;

/// [`NonPacked4`] with the key of each entity before its components.
pub type NonPackedWithId4<'a, A, B, C, D> = WithId<'a, (&'a [A], &'a [B], &'a [C], &'a [D]), 4>;

impl<'a, A, B, C, D> Tuples<'a, (&'a [A], &'a [B], &'a [C], &'a [D]), 4> {
    /// A cursor over all the entities that have a component in each of the
    /// storages. The storage with the fewest owned components drives, the
    /// first of them where several have as few.
    pub fn new(
        a: &'a SparseSet<A>,
        b: &'a SparseSet<B>,
        c: &'a SparseSet<C>,
        d: &'a SparseSet<D>,
    ) -> (cursor: Self)
        requires
            a.wf(),
            b.wf(),
            c.wf(),
            d.wf(),
        ensures
            cursor.wf(),
            cursor@.engine.storages == seq![a@.raw(), b@.raw(), c@.raw(), d@.raw()],
            cursor@.columns.0@ == a@.values,
            cursor@.columns.1@ == b@.values,
            cursor@.columns.2@ == c@.values,
            cursor@.columns.3@ == d@.values,
            is_first_smallest(cursor@.engine.storages, cursor@.engine.array),
            cursor@.engine.current == 0,
            cursor@.engine.end == cursor@.engine.storages[cursor@.engine.array].keys.len(),
    {
        let cursor = NonPacked::over_smallest(
            [
                a.raw_view(),
                b.raw_view(),
                c.raw_view(),
                d.raw_view(),
            ],
        );
        assert(cursor@.storages =~= seq![a@.raw(), b@.raw(), c@.raw(), d@.raw()]);
        Tuples::from_parts(cursor, (a.values(), b.values(), c.values(), d.values()))
    }
}

/// Cursor over the entities that have a component in each of 5 storages.
pub type NonPacked5<'a, A, B, C, D, E> =
    Tuples<'a, (&'a [A], &'a [B], &'a [C], &'a [D], &'a [E]), 5>;

/// [`NonPacked5`] gated by a predicate on the yielded items.
pub type NonPackedFilter5<'a, A, B, C, D, E, P> =
    Filter<'a, (&'a [A], &'a [B], &'a [C], &'a [D], &'a [E]), P, 5>;

/// [`NonPacked5`] with the key of each entity before its components.
pub type NonPackedWithId5<'a, A, B, C, D, E> =
    WithId<'a, (&'a [A], &'a [B], &'a [C], &'a [D], &'a [E]), 5>;

impl<'a, A, B, C, D, E> Tuples<'a, (&'a [A], &'a [B], &'a [C], &'a [D], &'a [E]), 5> {
    /// A cursor over all the entities that have a component in each of the
    /// storages. The storage with the fewest owned components drives, the
    /// first of them where several have as few.
    pub fn new(
        a: &'a SparseSet<A>,
        b: &'a SparseSet<B>,
        c: &'a SparseSet<C>,
        d: &'a SparseSet<D>,
        e: &'a SparseSet<E>,
    ) -> (cursor: Self)
        requires
            a.wf(),
            b.wf(),
            c.wf(),
            d.wf(),
            e.wf(),
        ensures
            cursor.wf(),
            cursor@.engine.storages == seq![a@.raw(), b@.raw(), c@.raw(), d@.raw(), e@.raw()],
            cursor@.columns.0@ == a@.values,
            cursor@.columns.1@ == b@.values,
            cursor@.columns.2@ == c@.values,
            cursor@.columns.3@ == d@.values,
            cursor@.columns.4@ == e@.values,
            is_first_smallest(cursor@.engine.storages, cursor@.engine.array),
            cursor@.engine.current == 0,
            cursor@.engine.end == cursor@.engine.storages[cursor@.engine.array].keys.len(),
    {
        let cursor = NonPacked::over_smallest(
            [
                a.raw_view(),
                b.raw_view(),
                c.raw_view(),
                d.raw_view(),
                e.raw_view(),
            ],
        );
        assert(cursor@.storages =~= seq![a@.raw(), b@.raw(), c@.raw(), d@.raw(), e@.raw()]);
        Tuples::from_parts(cursor, (a.values(), b.values(), c.values(), d.values(), e.values()))
    }
}

/// Cursor over the entities that have a component in each of 6 storages.
pub type NonPacked6<'a, A, B, C, D, E, F> =
    Tuples<'a, (&'a [A], &'a [B], &'a [C], &'a [D], &'a [E], &'a [F]), 6>;

/// [`NonPacked6`] gated by a predicate on the yielded items.
pub type NonPackedFilter6<'a, A, B, C, D, E, F, P> =
    Filter<'a, (&'a [A], &'a [B], &'a [C], &'a [D], &'a [E], &'a [F]), P, 6>;

/// [`NonPacked6`] with the key of each entity before its components.
pub type NonPackedWithId6<'a, A, B, C, D, E, F> =
    WithId<'a, (&'a [A], &'a [B], &'a [C], &'a [D], &'a [E], &'a [F]), 6>;

impl<'a, A, B, C, D, E, F> Tuples<'a, (&'a [A], &'a [B], &'a [C], &'a [D], &'a [E], &'a [F]), 6> {
    /// A cursor over all the entities that have a component in each of the
    /// storages. The storage with the fewest owned components drives, the
    /// first of them where several have as few.
    pub fn new(
        a: &'a SparseSet<A>,
        b: &'a SparseSet<B>,
        c: &'a SparseSet<C>,
        d: &'a SparseSet<D>,
        e: &'a SparseSet<E>,
        f: &'a SparseSet<F>,
    ) -> (cursor: Self)
        requires
            a.wf(),
            b.wf(),
            c.wf(),
            d.wf(),
            e.wf(),
            f.wf(),
        ensures
            cursor.wf(),
            cursor@.engine.storages == seq![
                a@.raw(),
                b@.raw(),
                c@.raw(),
                d@.raw(),
                e@.raw(),
                f@.raw(),
            ],
            cursor@.columns.0@ == a@.values,
            cursor@.columns.1@ == b@.values,
            cursor@.columns.2@ == c@.values,
            cursor@.columns.3@ == d@.values,
            cursor@.columns.4@ == e@.values,
            cursor@.columns.5@ == f@.values,
            is_first_smallest(cursor@.engine.storages, cursor@.engine.array),
            cursor@.engine.current == 0,
            cursor@.engine.end == cursor@.engine.storages[cursor@.engine.array].keys.len(),
    {
        let cursor = NonPacked::over_smallest(
            [
                a.raw_view(),
                b.raw_view(),
                c.raw_view(),
                d.raw_view(),
                e.raw_view(),
                f.raw_view(),
            ],
        );
        assert(cursor@.storages =~= seq![
            a@.raw(),
            b@.raw(),
            c@.raw(),
            d@.raw(),
            e@.raw(),
            f@.raw(),
        ]);
        Tuples::from_parts(
            cursor,
            (
                a.values(),
                b.values(),
                c.values(),
                d.values(),
                e.values(),
                f.values(),
            ),
        )
    }
}

/// Cursor over the entities that have a component in each of 7 storages.
pub type NonPacked7<'a, A, B, C, D, E, F, G> =
    Tuples<'a, (&'a [A], &'a [B], &'a [C], &'a [D], &'a [E], &'a [F], &'a [G]), 7>;

/// [`NonPacked7`] gated by a predicate on the yielded items.
pub type NonPackedFilter7<'a, A, B, C, D, E, F, G, P> =
    Filter<'a, (&'a [A], &'a [B], &'a [C], &'a [D], &'a [E], &'a [F], &'a [G]), P, 7>;

/// [`NonPacked7`] with the key of each entity before its components.
pub type NonPackedWithId7<'a, A, B, C, D, E, F, G> =
    WithId<'a, (&'a [A], &'a [B], &'a [C], &'a [D], &'a [E], &'a [F], &'a [G]), 7>;

impl<'a, A, B, C, D, E, F, G> Tuples<'a, (&'a [A], &'a [B], &'a [C], &'a [D], &'a [E], &'a [F], &'a [G]), 7> {
    /// A cursor over all the entities that have a component in each of the
    /// storages. The storage with the fewest owned components drives, the
    /// first of them where several have as few.
    pub fn new(
        a: &'a SparseSet<A>,
        b: &'a SparseSet<B>,
        c: &'a SparseSet<C>,
        d: &'a SparseSet<D>,
        e: &'a SparseSet<E>,
        f: &'a SparseSet<F>,
        g: &'a SparseSet<G>,
    ) -> (cursor: Self)
        requires
            a.wf(),
            b.wf(),
            c.wf(),
            d.wf(),
            e.wf(),
            f.wf(),
            g.wf(),
        ensures
            cursor.wf(),
            cursor@.engine.storages == seq![
                a@.raw(),
                b@.raw(),
                c@.raw(),
                d@.raw(),
                e@.raw(),
                f@.raw(),
                g@.raw(),
            ],
            cursor@.columns.0@ == a@.values,
            cursor@.columns.1@ == b@.values,
            cursor@.columns.2@ == c@.values,
            cursor@.columns.3@ == d@.values,
            cursor@.columns.4@ == e@.values,
            cursor@.columns.5@ == f@.values,
            cursor@.columns.6@ == g@.values,
            is_first_smallest(cursor@.engine.storages, cursor@.engine.array),
            cursor@.engine.current == 0,
            cursor@.engine.end == cursor@.engine.storages[cursor@.engine.array].keys.len(),
    {
        let cursor = NonPacked::over_smallest(
            [
                a.raw_view(),
                b.raw_view(),
                c.raw_view(),
                d.raw_view(),
                e.raw_view(),
                f.raw_view(),
                g.raw_view(),
            ],
        );
        assert(cursor@.storages =~= seq![
            a@.raw(),
            b@.raw(),
            c@.raw(),
            d@.raw(),
            e@.raw(),
            f@.raw(),
            g@.raw(),
        ]);
        Tuples::from_parts(
            cursor,
            (
                a.values(),
                b.values(),
                c.values(),
                d.values(),
                e.values(),
                f.values(),
                g.values(),
            ),
        )
    }
}

/// Cursor over the entities that have a component in each of 8 storages.
pub type NonPacked8<'a, A, B, C, D, E, F, G, H> =
    Tuples<'a, (&'a [A], &'a [B], &'a [C], &'a [D], &'a [E], &'a [F], &'a [G], &'a [H]), 8>;

/// [`NonPacked8`] gated by a predicate on the yielded items.
pub type NonPackedFilter8<'a, A, B, C, D, E, F, G, H, P> =
    Filter<'a, (&'a [A], &'a [B], &'a [C], &'a [D], &'a [E], &'a [F], &'a [G], &'a [H]), P, 8>;

/// [`NonPacked8`] with the key of each entity before its components.
pub type NonPackedWithId8<'a, A, B, C, D, E, F, G, H> =
    WithId<'a, (&'a [A], &'a [B], &'a [C], &'a [D], &'a [E], &'a [F], &'a [G], &'a [H]), 8>;

impl<'a, A, B, C, D, E, F, G, H> Tuples<'a, (&'a [A], &'a [B], &'a [C], &'a [D], &'a [E], &'a [F], &'a [G], &'a [H]), 8> {
    /// A cursor over all the entities that have a component in each of the
    /// storages. The storage with the fewest owned components drives, the
    /// first of them where several have as few.
    pub fn new(
        a: &'a SparseSet<A>,
        b: &'a SparseSet<B>,
        c: &'a SparseSet<C>,
        d: &'a SparseSet<D>,
        e: &'a SparseSet<E>,
        f: &'a SparseSet<F>,
        g: &'a SparseSet<G>,
        h: &'a SparseSet<H>,
    ) -> (cursor: Self)
        requires
            a.wf(),
            b.wf(),
            c.wf(),
            d.wf(),
            e.wf(),
            f.wf(),
            g.wf(),
            h.wf(),
        ensures
            cursor.wf(),
            cursor@.engine.storages == seq![
                a@.raw(),
                b@.raw(),
                c@.raw(),
                d@.raw(),
                e@.raw(),
                f@.raw(),
                g@.raw(),
                h@.raw(),
            ],
            cursor@.columns.0@ == a@.values,
            cursor@.columns.1@ == b@.values,
            cursor@.columns.2@ == c@.values,
            cursor@.columns.3@ == d@.values,
            cursor@.columns.4@ == e@.values,
            cursor@.columns.5@ == f@.values,
            cursor@.columns.6@ == g@.values,
            cursor@.columns.7@ == h@.values,
            is_first_smallest(cursor@.engine.storages, cursor@.engine.array),
            cursor@.engine.current == 0,
            cursor@.engine.end == cursor@.engine.storages[cursor@.engine.array].keys.len(),
    {
        let cursor = NonPacked::over_smallest(
            [
                a.raw_view(),
                b.raw_view(),
                c.raw_view(),
                d.raw_view(),
                e.raw_view(),
                f.raw_view(),
                g.raw_view(),
                h.raw_view(),
            ],
        );
        assert(cursor@.storages =~= seq![
            a@.raw(),
            b@.raw(),
            c@.raw(),
            d@.raw(),
            e@.raw(),
            f@.raw(),
            g@.raw(),
            h@.raw(),
        ]);
        Tuples::from_parts(
            cursor,
            (
                a.values(),
                b.values(),
                c.values(),
                d.values(),
                e.values(),
                f.values(),
                g.values(),
                h.values(),
            ),
        )
    }
}

/// Cursor over the entities that have a component in each of 9 storages.
pub type NonPacked9<'a, A, B, C, D, E, F, G, H, I> =
    Tuples<'a, (&'a [A], &'a [B], &'a [C], &'a [D], &'a [E], &'a [F], &'a [G], &'a [H], &'a [I]), 9>;

/// [`NonPacked9`] gated by a predicate on the yielded items.
pub type NonPackedFilter9<'a, A, B, C, D, E, F, G, H, I, P> =
    Filter<'a, (&'a [A], &'a [B], &'a [C], &'a [D], &'a [E], &'a [F], &'a [G], &'a [H], &'a [I]), P, 9>;

/// [`NonPacked9`] with the key of each entity before its components.
pub type NonPackedWithId9<'a, A, B, C, D, E, F, G, H, I> =
    WithId<'a, (&'a [A], &'a [B], &'a [C], &'a [D], &'a [E], &'a [F], &'a [G], &'a [H], &'a [I]), 9>;

impl<'a, A, B, C, D, E, F, G, H, I> Tuples<'a, (&'a [A], &'a [B], &'a [C], &'a [D], &'a [E], &'a [F], &'a [G], &'a [H], &'a [I]), 9> {
    /// A cursor over all the entities that have a component in each of the
    /// storages. The storage with the fewest owned components drives, the
    /// first of them where several have as few.
    pub fn new(
        a: &'a SparseSet<A>,
        b: &'a SparseSet<B>,
        c: &'a SparseSet<C>,
        d: &'a SparseSet<D>,
        e: &'a SparseSet<E>,
        f: &'a SparseSet<F>,
        g: &'a SparseSet<G>,
        h: &'a SparseSet<H>,
        i: &'a SparseSet<I>,
    ) -> (cursor: Self)
        requires
            a.wf(),
            b.wf(),
            c.wf(),
            d.wf(),
            e.wf(),
            f.wf(),
            g.wf(),
            h.wf(),
            i.wf(),
        ensures
            cursor.wf(),
            cursor@.engine.storages == seq![
                a@.raw(),
                b@.raw(),
                c@.raw(),
                d@.raw(),
                e@.raw(),
                f@.raw(),
                g@.raw(),
                h@.raw(),
                i@.raw(),
            ],
            cursor@.columns.0@ == a@.values,
            cursor@.columns.1@ == b@.values,
            cursor@.columns.2@ == c@.values,
            cursor@.columns.3@ == d@.values,
            cursor@.columns.4@ == e@.values,
            cursor@.columns.5@ == f@.values,
            cursor@.columns.6@ == g@.values,
            cursor@.columns.7@ == h@.values,
            cursor@.columns.8@ == i@.values,
            is_first_smallest(cursor@.engine.storages, cursor@.engine.array),
            cursor@.engine.current == 0,
            cursor@.engine.end == cursor@.engine.storages[cursor@.engine.array].keys.len(),
    {
        let cursor = NonPacked::over_smallest(
            [
                a.raw_view(),
                b.raw_view(),
                c.raw_view(),
                d.raw_view(),
                e.raw_view(),
                f.raw_view(),
                g.raw_view(),
                h.raw_view(),
                i.raw_view(),
            ],
        );
        assert(cursor@.storages =~= seq![
            a@.raw(),
            b@.raw(),
            c@.raw(),
            d@.raw(),
            e@.raw(),
            f@.raw(),
            g@.raw(),
            h@.raw(),
            i@.raw(),
        ]);
        Tuples::from_parts(
            cursor,
            (
                a.values(),
                b.values(),
                c.values(),
                d.values(),
                e.values(),
                f.values(),
                g.values(),
                h.values(),
                i.values(),
            ),
        )
    }
}

/// Cursor over the entities that have a component in each of 10 storages.
pub type NonPacked10<'a, A, B, C, D, E, F, G, H, I, J> =
    Tuples<'a, (&'a [A], &'a [B], &'a [C], &'a [D], &'a [E], &'a [F], &'a [G], &'a [H], &'a [I], &'a [J]), 10>;

/// [`NonPacked10`] gated by a predicate on the yielded items.
pub type NonPackedFilter10<'a, A, B, C, D, E, F, G, H, I, J, P> =
    Filter<'a, (&'a [A], &'a [B], &'a [C], &'a [D], &'a [E], &'a [F], &'a [G], &'a [H], &'a [I], &'a [J]), P, 10>;

/// [`NonPacked10`] with the key of each entity before its components.
pub type NonPackedWithId10<'a, A, B, C, D, E, F, G, H, I, J> =
    WithId<'a, (&'a [A], &'a [B], &'a [C], &'a [D], &'a [E], &'a [F], &'a [G], &'a [H], &'a [I], &'a [J]), 10>;

impl<'a, A, B, C, D, E, F, G, H, I, J> Tuples<'a, (&'a [A], &'a [B], &'a [C], &'a [D], &'a [E], &'a [F], &'a [G], &'a [H], &'a [I], &'a [J]), 10> {
    /// A cursor over all the entities that have a component in each of the
    /// storages. The storage with the fewest owned components drives, the
    /// first of them where several have as few.
    pub fn new(
        a: &'a SparseSet<A>,
        b: &'a SparseSet<B>,
        c: &'a SparseSet<C>,
        d: &'a SparseSet<D>,
        e: &'a SparseSet<E>,
        f: &'a SparseSet<F>,
        g: &'a SparseSet<G>,
        h: &'a SparseSet<H>,
        i: &'a SparseSet<I>,
        j: &'a SparseSet<J>,
    ) -> (cursor: Self)
        requires
            a.wf(),
            b.wf(),
            c.wf(),
            d.wf(),
            e.wf(),
            f.wf(),
            g.wf(),
            h.wf(),
            i.wf(),
            j.wf(),
        ensures
            cursor.wf(),
            cursor@.engine.storages == seq![
                a@.raw(),
                b@.raw(),
                c@.raw(),
                d@.raw(),
                e@.raw(),
                f@.raw(),
                g@.raw(),
                h@.raw(),
                i@.raw(),
                j@.raw(),
            ],
            cursor@.columns.0@ == a@.values,
            cursor@.columns.1@ == b@.values,
            cursor@.columns.2@ == c@.values,
            cursor@.columns.3@ == d@.values,
            cursor@.columns.4@ == e@.values,
            cursor@.columns.5@ == f@.values,
            cursor@.columns.6@ == g@.values,
            cursor@.columns.7@ == h@.values,
            cursor@.columns.8@ == i@.values,
            cursor@.columns.9@ == j@.values,
            is_first_smallest(cursor@.engine.storages, cursor@.engine.array),
            cursor@.engine.current == 0,
            cursor@.engine.end == cursor@.engine.storages[cursor@.engine.array].keys.len(),
    {
        let cursor = NonPacked::over_smallest(
            [
                a.raw_view(),
                b.raw_view(),
                c.raw_view(),
                d.raw_view(),
                e.raw_view(),
                f.raw_view(),
                g.raw_view(),
                h.raw_view(),
                i.raw_view(),
                j.raw_view(),
            ],
        );
        assert(cursor@.storages =~= seq![
            a@.raw(),
            b@.raw(),
            c@.raw(),
            d@.raw(),
            e@.raw(),
            f@.raw(),
            g@.raw(),
            h@.raw(),
            i@.raw(),
            j@.raw(),
        ]);
        Tuples::from_parts(
            cursor,
            (
                a.values(),
                b.values(),
                c.values(),
                d.values(),
                e.values(),
                f.values(),
                g.values(),
                h.values(),
                i.values(),
                j.values(),
            ),
        )
    }
}

} // verus!
