//! Chunked traversal of one storage's dense components.
//!
//! Only a single, densely packed storage can be walked in chunks: a shared
//! slot redirects elsewhere, and would break the contiguity of a slice.

use vstd::prelude::*;
use vstd::arithmetic::div_mod::{
    lemma_div_pos_is_pos, lemma_fundamental_div_mod, lemma_fundamental_div_mod_converse,
    lemma_mod_bound,
};
use vstd::slice::slice_subrange;

verus! {

/// The mathematical content of a chunk cursor.
pub struct ChunkView<T> {
    /// The dense components that the cursor walks.
    pub data: Seq<T>,
    /// The position of the next chunk.
    pub current: int,
    /// The position that no chunk reaches.
    pub end: int,
    /// The length of each chunk.
    pub step: int,
}

impl<T> ChunkView<T> {
    /// The cursor lies inside its data, and its chunks are not empty.
    pub open spec fn consistent(self) -> bool {
        0 <= self.current <= self.end <= self.data.len() && 0 < self.step
    }

    /// The number of whole chunks left.
    pub open spec fn chunk_count(self) -> int {
        (self.end - self.current) / self.step
    }

    /// The `k`-th of the chunks left.
    pub open spec fn chunk(self, k: int) -> Seq<T> {
        self.data.subrange(self.current + k * self.step, self.current + (k + 1) * self.step)
    }

    /// The number of trailing components that `remainder` hands out.
    pub open spec fn remainder_len(self) -> int {
        if self.end - self.current <= self.end % self.step {
            self.end - self.current
        } else {
            self.end % self.step
        }
    }

    /// The trailing components that `remainder` hands out.
    pub open spec fn remainder(self) -> Seq<T> {
        self.data.subrange(self.end - self.remainder_len(), self.end)
    }

    /// The cursor after `remainder`: its end has moved before what was handed
    /// out.
    pub open spec fn without_remainder(self) -> ChunkView<T> {
        ChunkView { end: self.end - self.remainder_len(), ..self }
    }

    /// The cursor after one chunk was handed out.
    pub open spec fn advanced(self) -> ChunkView<T> {
        ChunkView { current: self.current + self.step, ..self }
    }
}

/// Chunk cursor over a single storage. It hands out slices of exactly `step`
/// components; what is left over at the end is had from `remainder`.
pub struct ChunkExact1<'a, T> {
    data: &'a [T],
    current: usize,
    end: usize,
    step: usize,
}

impl<'a, T> View for ChunkExact1<'a, T> {
    type V = ChunkView<T>;

    closed spec fn view(&self) -> ChunkView<T> {
        ChunkView {
            data: self.data@,
            current: self.current as int,
            end: self.end as int,
            step: self.step as int,
        }
    }
}

impl<'a, T> ChunkExact1<'a, T> {
    /// The cursor is well formed: its view is consistent.
    pub open spec fn wf(&self) -> bool {
        self@.consistent()
    }

    /// A cursor over all of `data`, in chunks of `step` components.
    pub fn new(data: &'a [T], step: usize) -> (cursor: Self)
        requires
            step > 0,
        ensures
            cursor.wf(),
            cursor@ == (ChunkView { data: data@, current: 0, end: data@.len() as int, step: step as int }),
    {
        ChunkExact1 { data, current: 0, end: data.len(), step }
    }

    /// A cursor over `data[current..end]`, in chunks of `step` components.
    pub fn over(data: &'a [T], current: usize, end: usize, step: usize) -> (cursor: Self)
        requires
            current <= end <= data@.len(),
            step > 0,
        ensures
            cursor.wf(),
            cursor@ == (ChunkView {
                data: data@,
                current: current as int,
                end: end as int,
                step: step as int,
            }),
    {
        ChunkExact1 { data, current, end, step }
    }

    /// The trailing components that no whole chunk covers.
    ///
    /// Hands them out once: the end of the cursor moves before them, so that
    /// a second call finds nothing left over.
    pub fn remainder(&mut self) -> (rest: &'a [T])
        requires
            old(self).wf(),
        ensures
            final(self).wf(),
            rest@ == old(self)@.remainder(),
            final(self)@ == old(self)@.without_remainder(),
    {
        let left = self.end - self.current;
        let over = self.end % self.step;
        let remainder = if left <= over {
            left
        } else {
            over
        };
        let old_end = self.end;
        self.end -= remainder;
        slice_subrange(self.data, self.end, old_end)
    }

    /// The next chunk, if `step` components are left before the end.
    pub fn first_pass(&mut self) -> (chunk: Option<&'a [T]>)
        requires
            old(self).wf(),
        ensures
            final(self).wf(),
            match chunk {
                Some(slice) => {
                    &&& old(self)@.chunk_count() > 0
                    &&& slice@ == old(self)@.chunk(0)
                    &&& final(self)@ == old(self)@.advanced()
                },
                None => old(self)@.chunk_count() == 0 && final(self)@ == old(self)@,
            },
    {
        let current = self.current;
        proof {
            lemma_count_positive(self@);
        }
        if self.step <= self.end - current {
            self.current += self.step;
            assert(old(self)@.chunk(0) == self.data@.subrange(current as int, self.current as int))
                by {
                let step = self.step as int;
                assert(0 * step == 0 && (0 + 1) * step == step) by (nonlinear_arith);
            }
            Some(slice_subrange(self.data, current, self.current))
        } else {
            None
        }
    }

    /// The second phase of a pull. A chunk cursor defers no bookkeeping, so
    /// this changes nothing.
    pub fn post_process(&mut self)
        ensures
            *final(self) == *old(self),
    {
    }

    /// The next chunk: one pull, both phases.
    pub fn next(&mut self) -> (chunk: Option<&'a [T]>)
        requires
            old(self).wf(),
        ensures
            final(self).wf(),
            match chunk {
                Some(slice) => {
                    &&& old(self)@.chunk_count() > 0
                    &&& slice@ == old(self)@.chunk(0)
                    &&& final(self)@ == old(self)@.advanced()
                },
                None => old(self)@.chunk_count() == 0 && final(self)@ == old(self)@,
            },
    {
        let chunk = self.first_pass();
        self.post_process();
        chunk
    }

    /// All the chunks left, in order. The cursor is left where no whole
    /// chunk remains; `remainder` may still be called on it.
    pub fn collect(&mut self) -> (chunks: Vec<&'a [T]>)
        requires
            old(self).wf(),
        ensures
            final(self).wf(),
            chunks@.len() == old(self)@.chunk_count(),
            forall|k: int| 0 <= k < chunks@.len() ==> (#[trigger] chunks@[k])@ == old(self)@.chunk(k),
            final(self)@ == (ChunkView {
                current: old(self)@.current + old(self)@.chunk_count() * old(self)@.step,
                ..old(self)@
            }),
    {
        let mut chunks: Vec<&'a [T]> = Vec::new();
        let ghost start = self@;
        proof {
            lemma_count_positive(start);
            assert(0 * start.step == 0) by (nonlinear_arith);
        }
        loop
            invariant
                self.wf(),
                start.consistent(),
                start == old(self)@,
                self@ == (ChunkView { current: start.current + chunks@.len() * start.step, ..start }),
                forall|k: int| 0 <= k < chunks@.len() ==> (#[trigger] chunks@[k])@ == start.chunk(k),
            ensures
                self.wf(),
                chunks@.len() == start.chunk_count(),
                forall|k: int| 0 <= k < chunks@.len() ==> (#[trigger] chunks@[k])@ == start.chunk(k),
                self@ == (ChunkView { current: start.current + chunks@.len() * start.step, ..start }),
            decreases self@.end - self@.current,
        {
            let ghost taken = chunks@.len() as int;
            let ghost before = self@;
            match self.first_pass() {
                Some(slice) => {
                    proof {
                        let step = start.step;
                        assert((taken + 1) * step == taken * step + step) by (nonlinear_arith);
                        assert(0 * step == 0 && (0 + 1) * step == step) by (nonlinear_arith);
                        assert(before.chunk(0) == start.chunk(taken));
                    }
                    chunks.push(slice);
                },
                None => {
                    proof {
                        lemma_count_positive(before);
                        lemma_count_after(start, taken);
                    }
                    break ;
                },
            }
        }
        chunks
    }

    /// The number of chunks left, as a lower and an upper bound. No presence
    /// is tested on a single storage, so the two are the same.
    pub fn size_hint(&self) -> (hint: (usize, Option<usize>))
        requires
            self.wf(),
        ensures
            hint.0 == self@.chunk_count(),
            hint.1 == Some(hint.0),
    {
        let len = (self.end - self.current) / self.step;
        (len, Some(len))
    }
}

/// A whole chunk is left exactly when `step` components are left.
pub proof fn lemma_count_positive<T>(view: ChunkView<T>)
    requires
        view.consistent(),
    ensures
        view.chunk_count() > 0 <==> view.current + view.step <= view.end,
        view.chunk_count() >= 0,
{
    let n = view.end - view.current;
    let s = view.step;
    assert(n / s > 0 <==> s <= n) by (nonlinear_arith)
        requires
            n >= 0,
            s > 0,
    ;
    assert(n / s >= 0) by (nonlinear_arith)
        requires
            n >= 0,
            s > 0,
    ;
}

/// Where `taken` whole chunks have been handed out and less than one more
/// is left, `taken` is the number of chunks.
proof fn lemma_count_after<T>(view: ChunkView<T>, taken: int)
    requires
        view.consistent(),
        0 <= taken,
        view.current + taken * view.step <= view.end,
        view.end < view.current + taken * view.step + view.step,
    ensures
        view.chunk_count() == taken,
{
    let n = view.end - view.current;
    let s = view.step;
    assert(n / s == taken) by (nonlinear_arith)
        requires
            s > 0,
            0 <= taken,
            taken * s <= n < taken * s + s,
    ;
}

/// What `remainder` hands out, it hands out once: on the cursor that it
/// leaves, nothing is left over, and as many chunks as before.
pub proof fn lemma_remainder_once<T>(view: ChunkView<T>)
    requires
        view.consistent(),
    ensures
        view.without_remainder().consistent(),
        view.without_remainder().remainder_len() == 0,
        view.without_remainder().remainder() == Seq::<T>::empty(),
        0 <= view.remainder_len() < view.step,
{
    let e = view.end;
    let s = view.step;
    let r = view.remainder_len();
    lemma_mod_bound(e, s);
    lemma_fundamental_div_mod(e, s);
    assert(s * (e / s) == (e / s) * s + 0) by (nonlinear_arith);
    lemma_fundamental_div_mod_converse(e - e % s, s, e / s, 0);
    assert(view.without_remainder().remainder() =~= Seq::<T>::empty());
}

/// On a cursor that starts at a multiple of `step`, as every cursor over a
/// whole storage does, the chunks and the remainder cover the components up
/// to the end exactly: `⌊len / step⌋` chunks, then `len mod step`
/// components, where `len` is the number of components from start to end.
/// Taking the remainder first leaves the chunks as they were.
pub proof fn lemma_chunks_then_remainder<T>(view: ChunkView<T>)
    requires
        view.consistent(),
        view.current % view.step == 0,
    ensures
        view.remainder_len() == (view.end - view.current) % view.step,
        view.current + view.chunk_count() * view.step + view.remainder_len() == view.end,
        view.without_remainder().chunk_count() == view.chunk_count(),
        forall|k: int|
            0 <= k < view.chunk_count() ==> #[trigger] view.without_remainder().chunk(k)
                == view.chunk(k),
        ({
            let emptied = ChunkView {
                current: view.current + view.chunk_count() * view.step,
                ..view
            };
            emptied.remainder() == view.remainder()
        }),
{
    let c = view.current;
    let e = view.end;
    let s = view.step;
    let n = e - c;
    lemma_fundamental_div_mod(c, s);
    lemma_fundamental_div_mod(n, s);
    lemma_mod_bound(n, s);
    lemma_div_pos_is_pos(n, s);
    let q = n / s;
    let r = n % s;
    assert((c / s + q) * s == s * (c / s) + s * q && s * q == q * s + 0) by (nonlinear_arith);
    lemma_fundamental_div_mod_converse(e, s, c / s + q, r);
    assert(view.remainder_len() == r);
    let cut = view.without_remainder();
    lemma_fundamental_div_mod_converse(cut.end - cut.current, s, q, 0);
    let emptied = ChunkView { current: c + view.chunk_count() * s, ..view };
    assert(emptied.end - emptied.current == n % s);
    assert(emptied.remainder_len() == n % s);
}

/// A fresh cursor over `len` components holds `⌊len / step⌋` chunks of
/// `step` components each, and a remainder of the last `len mod step`.
pub proof fn lemma_fresh_cursor<T>(data: Seq<T>, step: int)
    requires
        step > 0,
    ensures
        ({
            let view = ChunkView { data, current: 0, end: data.len() as int, step };
            &&& view.consistent()
            &&& view.chunk_count() == data.len() as int / step
            &&& view.remainder_len() == data.len() as int % step
            &&& view.remainder() == data.subrange(
                data.len() as int - data.len() as int % step,
                data.len() as int,
            )
            &&& forall|k: int|
                0 <= k < view.chunk_count() ==> (#[trigger] view.chunk(k)).len() == step
                    && view.chunk(k) == data.subrange(k * step, (k + 1) * step)
        }),
{
    let view = ChunkView { data, current: 0, end: data.len() as int, step };
    let len = data.len() as int;
    assert(0int % step == 0) by (nonlinear_arith)
        requires
            step > 0,
    ;
    lemma_chunks_then_remainder(view);
    assert forall|k: int| 0 <= k < view.chunk_count() implies (#[trigger] view.chunk(k)).len()
        == step && view.chunk(k) == data.subrange(k * step, (k + 1) * step) by {
        lemma_chunk_in_bounds(view, k);
    }
}

/// Each of the chunks left lies before the end, and has `step` components.
pub proof fn lemma_chunk_in_bounds<T>(view: ChunkView<T>, k: int)
    requires
        view.consistent(),
        0 <= k < view.chunk_count(),
    ensures
        view.current <= view.current + k * view.step,
        view.current + (k + 1) * view.step <= view.end,
        view.chunk(k).len() == view.step,
{
    let n = view.end - view.current;
    let s = view.step;
    assert(0 <= k * s && (k + 1) * s == k * s + s && (k + 1) * s <= n) by (nonlinear_arith)
        requires
            n >= 0,
            s > 0,
            0 <= k < n / s,
    ;
}

} // verus!
