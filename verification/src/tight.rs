//! The cursor over the dense components of a single storage.
//!
//! With one storage there is no presence to test: every dense position is a
//! component, and the number of components left is known exactly.

use vstd::prelude::*;
use crate::chunk_exact::{ChunkExact1, ChunkView};

verus! {

/// The mathematical content of a single-storage cursor.
pub struct TightView<T> {
    /// The dense components that the cursor walks.
    pub data: Seq<T>,
    /// The position of the next component.
    pub current: int,
    /// The position that the cursor stops before.
    pub end: int,
}

impl<T> TightView<T> {
    /// The cursor lies inside its data.
    pub open spec fn consistent(self) -> bool {
        0 <= self.current <= self.end <= self.data.len()
    }

    /// The components that the cursor has yet to yield, in order.
    pub open spec fn pending(self) -> Seq<T> {
        self.data.subrange(self.current, self.end)
    }
}

/// Cursor over the components of a single storage, in dense order.
pub struct Tight1<'a, T> {
    data: &'a [T],
    current: usize,
    end: usize,
}

impl<'a, T> View for Tight1<'a, T> {
    type V = TightView<T>;

    closed spec fn view(&self) -> TightView<T> {
        TightView { data: self.data@, current: self.current as int, end: self.end as int }
    }
}

impl<'a, T> Tight1<'a, T> {
    /// The cursor is well formed: its view is consistent.
    pub open spec fn wf(&self) -> bool {
        self@.consistent()
    }

    /// A cursor over all of `data`.
    pub fn new(data: &'a [T]) -> (cursor: Self)
        ensures
            cursor.wf(),
            cursor@ == (TightView { data: data@, current: 0, end: data@.len() as int }),
    {
        Tight1 { data, current: 0, end: data.len() }
    }

    /// The next component, until the end is reached.
    pub fn next(&mut self) -> (item: Option<&'a T>)
        requires
            old(self).wf(),
        ensures
            final(self).wf(),
            match item {
                Some(value) => {
                    &&& old(self)@.current < old(self)@.end
                    &&& *value == old(self)@.data[old(self)@.current]
                    &&& final(self)@ == (TightView {
                        current: old(self)@.current + 1,
                        ..old(self)@
                    })
                },
                None => old(self)@.current == old(self)@.end && final(self)@ == old(self)@,
            },
    {
        if self.current < self.end {
            let data: &'a [T] = self.data;
            let value = &data[self.current];
            self.current += 1;
            Some(value)
        } else {
            None
        }
    }

    /// The number of components left, as a lower and an upper bound: the
    /// count is exact.
    pub fn size_hint(&self) -> (hint: (usize, Option<usize>))
        requires
            self.wf(),
        ensures
            hint.0 == self@.end - self@.current,
            hint.1 == Some(hint.0),
    {
        let len = self.end - self.current;
        (len, Some(len))
    }

    /// All the components left, in dense order.
    pub fn collect(&mut self) -> (items: Vec<&'a T>)
        requires
            old(self).wf(),
        ensures
            final(self).wf(),
            final(self)@ == (TightView { current: old(self)@.end, ..old(self)@ }),
            items@.len() == old(self)@.pending().len(),
            forall|k: int| 0 <= k < items@.len() ==> *#[trigger] items@[k] == old(self)@.pending()[k],
    {
        let mut items: Vec<&'a T> = Vec::new();
        let ghost start = self@;
        while self.current < self.end
            invariant
                self.wf(),
                start == old(self)@,
                start.current <= self@.current,
                self@ == (TightView { current: self@.current, ..start }),
                items@.len() == self@.current - start.current,
                forall|k: int| 0 <= k < items@.len() ==> *#[trigger] items@[k] == start.pending()[k],
            decreases self@.end - self@.current,
        {
            let data: &'a [T] = self.data;
            items.push(&data[self.current]);
            self.current += 1;
        }
        items
    }

    /// The same walk in chunks of `step` components, from where this cursor
    /// stands.
    pub fn into_chunk_exact(self, step: usize) -> (chunks: ChunkExact1<'a, T>)
        requires
            self.wf(),
            step > 0,
        ensures
            chunks.wf(),
            chunks@ == (ChunkView {
                data: self@.data,
                current: self@.current,
                end: self@.end,
                step: step as int,
            }),
    {
        ChunkExact1::over(self.data, self.current, self.end, step)
    }
}

} // verus!
