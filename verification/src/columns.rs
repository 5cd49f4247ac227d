//! The dense components of several storages, side by side.
//!
//! A cursor over `N` storages finds `N` dense positions for each entity.
//! What it yields is had from the columns: one slice of components for each
//! storage, each of its own type.

use vstd::prelude::*;

verus! {

/// `N` slices of dense components, and the tuple of references that one
/// dense position in each of them selects.
pub trait Columns<const N: usize> {
    /// What is yielded for one entity: a reference into each column.
    type Item;

    /// The length of each column.
    spec fn lens(&self) -> Seq<nat>;

    /// The item that `positions` select, one position for each column.
    spec fn item_at(&self, positions: Seq<usize>) -> Self::Item;

    /// The item at `positions`.
    fn fetch(&self, positions: &[usize; N]) -> (item: Self::Item)
        requires
            forall|s: int| 0 <= s < N ==> (#[trigger] positions@[s]) < self.lens()[s],
        ensures
            item == self.item_at(positions@),
    ;
}

impl<'a, 'b, A, B> Columns<2> for (&'a [A], &'b [B]) {
    type Item = (&'a A, &'b B);

    open spec fn lens(&self) -> Seq<nat> {
        seq![self.0@.len(), self.1@.len()]
    }

    open spec fn item_at(&self, positions: Seq<usize>) -> (&'a A, &'b B) {
        (
            &self.0@[positions[0] as int],
            &self.1@[positions[1] as int],
        )
    }

    fn fetch(&self, positions: &[usize; 2]) -> (item: (&'a A, &'b B)) {
        assert(positions@[0] < self.lens()[0]);
        assert(positions@[1] < self.lens()[1]);
        (
            &self.0[positions[0]],
            &self.1[positions[1]],
        )
    }
}

impl<'a, 'b, 'c, A, B, C> Columns<3> for (&'a [A], &'b [B], &'c [C]) {
    type Item = (&'a A, &'b B, &'c C);

    open spec fn lens(&self) -> Seq<nat> {
        seq![self.0@.len(), self.1@.len(), self.2@.len()]
    }

    open spec fn item_at(&self, positions: Seq<usize>) -> (&'a A, &'b B, &'c C) {
        (
            &self.0@[positions[0] as int],
            &self.1@[positions[1] as int],
            &self.2@[positions[2] as int],
        )
    }

    fn fetch(&self, positions: &[usize; 3]) -> (item: (&'a A, &'b B, &'c C)) {
        assert(positions@[0] < self.lens()[0]);
        assert(positions@[1] < self.lens()[1]);
        assert(positions@[2] < self.lens()[2]);
        (
            &self.0[positions[0]],
            &self.1[positions[1]],
            &self.2[positions[2]],
        )
    }
}

impl<'a, 'b, 'c, 'd, A, B, C, D> Columns<4> for (&'a [A], &'b [B], &'c [C], &'d [D]) {
    type Item = (&'a A, &'b B, &'c C, &'d D);

    open spec fn lens(&self) -> Seq<nat> {
        seq![self.0@.len(), self.1@.len(), self.2@.len(), self.3@.len()]
    }

    open spec fn item_at(&self, positions: Seq<usize>) -> (&'a A, &'b B, &'c C, &'d D) {
        (
            &self.0@[positions[0] as int],
            &self.1@[positions[1] as int],
            &self.2@[positions[2] as int],
            &self.3@[positions[3] as int],
        )
    }

    fn fetch(&self, positions: &[usize; 4]) -> (item: (&'a A, &'b B, &'c C, &'d D)) {
        assert(positions@[0] < self.lens()[0]);
        assert(positions@[1] < self.lens()[1]);
        assert(positions@[2] < self.lens()[2]);
        assert(positions@[3] < self.lens()[3]);
        (
            &self.0[positions[0]],
            &self.1[positions[1]],
            &self.2[positions[2]],
            &self.3[positions[3]],
        )
    }
}

impl<'a, 'b, 'c, 'd, 'e, A, B, C, D, E> Columns<5> for (&'a [A], &'b [B], &'c [C], &'d [D], &'e [E]) {
    type Item = (&'a A, &'b B, &'c C, &'d D, &'e E);

    open spec fn lens(&self) -> Seq<nat> {
        seq![self.0@.len(), self.1@.len(), self.2@.len(), self.3@.len(), self.4@.len()]
    }

    open spec fn item_at(&self, positions: Seq<usize>) -> (&'a A, &'b B, &'c C, &'d D, &'e E) {
        (
            &self.0@[positions[0] as int],
            &self.1@[positions[1] as int],
            &self.2@[positions[2] as int],
            &self.3@[positions[3] as int],
            &self.4@[positions[4] as int],
        )
    }

    fn fetch(&self, positions: &[usize; 5]) -> (item: (&'a A, &'b B, &'c C, &'d D, &'e E)) {
        assert(positions@[0] < self.lens()[0]);
        assert(positions@[1] < self.lens()[1]);
        assert(positions@[2] < self.lens()[2]);
        assert(positions@[3] < self.lens()[3]);
        assert(positions@[4] < self.lens()[4]);
        (
            &self.0[positions[0]],
            &self.1[positions[1]],
            &self.2[positions[2]],
            &self.3[positions[3]],
            &self.4[positions[4]],
        )
    }
}

impl<'a, 'b, 'c, 'd, 'e, 'f, A, B, C, D, E, F> Columns<6> for (&'a [A], &'b [B], &'c [C], &'d [D], &'e [E], &'f [F]) {
    type Item = (&'a A, &'b B, &'c C, &'d D, &'e E, &'f F);

    open spec fn lens(&self) -> Seq<nat> {
        seq![
            self.0@.len(),
            self.1@.len(),
            self.2@.len(),
            self.3@.len(),
            self.4@.len(),
            self.5@.len(),
        ]
    }

    open spec fn item_at(&self, positions: Seq<usize>) -> (&'a A, &'b B, &'c C, &'d D, &'e E, &'f F) {
        (
            &self.0@[positions[0] as int],
            &self.1@[positions[1] as int],
            &self.2@[positions[2] as int],
            &self.3@[positions[3] as int],
            &self.4@[positions[4] as int],
            &self.5@[positions[5] as int],
        )
    }

    fn fetch(&self, positions: &[usize; 6]) -> (item: (&'a A, &'b B, &'c C, &'d D, &'e E, &'f F)) {
        assert(positions@[0] < self.lens()[0]);
        assert(positions@[1] < self.lens()[1]);
        assert(positions@[2] < self.lens()[2]);
        assert(positions@[3] < self.lens()[3]);
        assert(positions@[4] < self.lens()[4]);
        assert(positions@[5] < self.lens()[5]);
        (
            &self.0[positions[0]],
            &self.1[positions[1]],
            &self.2[positions[2]],
            &self.3[positions[3]],
            &self.4[positions[4]],
            &self.5[positions[5]],
        )
    }
}

impl<'a, 'b, 'c, 'd, 'e, 'f, 'g, A, B, C, D, E, F, G> Columns<7> for (&'a [A], &'b [B], &'c [C], &'d [D], &'e [E], &'f [F], &'g [G]) {
    type Item = (&'a A, &'b B, &'c C, &'d D, &'e E, &'f F, &'g G);

    open spec fn lens(&self) -> Seq<nat> {
        seq![
            self.0@.len(),
            self.1@.len(),
            self.2@.len(),
            self.3@.len(),
            self.4@.len(),
            self.5@.len(),
            self.6@.len(),
        ]
    }

    open spec fn item_at(&self, positions: Seq<usize>) -> (&'a A, &'b B, &'c C, &'d D, &'e E, &'f F, &'g G) {
        (
            &self.0@[positions[0] as int],
            &self.1@[positions[1] as int],
            &self.2@[positions[2] as int],
            &self.3@[positions[3] as int],
            &self.4@[positions[4] as int],
            &self.5@[positions[5] as int],
            &self.6@[positions[6] as int],
        )
    }

    fn fetch(&self, positions: &[usize; 7]) -> (item: (&'a A, &'b B, &'c C, &'d D, &'e E, &'f F, &'g G)) {
        assert(positions@[0] < self.lens()[0]);
        assert(positions@[1] < self.lens()[1]);
        assert(positions@[2] < self.lens()[2]);
        assert(positions@[3] < self.lens()[3]);
        assert(positions@[4] < self.lens()[4]);
        assert(positions@[5] < self.lens()[5]);
        assert(positions@[6] < self.lens()[6]);
        (
            &self.0[positions[0]],
            &self.1[positions[1]],
            &self.2[positions[2]],
            &self.3[positions[3]],
            &self.4[positions[4]],
            &self.5[positions[5]],
            &self.6[positions[6]],
        )
    }
}

impl<'a, 'b, 'c, 'd, 'e, 'f, 'g, 'h, A, B, C, D, E, F, G, H> Columns<8> for (&'a [A], &'b [B], &'c [C], &'d [D], &'e [E], &'f [F], &'g [G], &'h [H]) {
    type Item = (&'a A, &'b B, &'c C, &'d D, &'e E, &'f F, &'g G, &'h H);

    open spec fn lens(&self) -> Seq<nat> {
        seq![
            self.0@.len(),
            self.1@.len(),
            self.2@.len(),
            self.3@.len(),
            self.4@.len(),
            self.5@.len(),
            self.6@.len(),
            self.7@.len(),
        ]
    }

    open spec fn item_at(&self, positions: Seq<usize>) -> (&'a A, &'b B, &'c C, &'d D, &'e E, &'f F, &'g G, &'h H) {
        (
            &self.0@[positions[0] as int],
            &self.1@[positions[1] as int],
            &self.2@[positions[2] as int],
            &self.3@[positions[3] as int],
            &self.4@[positions[4] as int],
            &self.5@[positions[5] as int],
            &self.6@[positions[6] as int],
            &self.7@[positions[7] as int],
        )
    }

    fn fetch(&self, positions: &[usize; 8]) -> (item: (&'a A, &'b B, &'c C, &'d D, &'e E, &'f F, &'g G, &'h H)) {
        assert(positions@[0] < self.lens()[0]);
        assert(positions@[1] < self.lens()[1]);
        assert(positions@[2] < self.lens()[2]);
        assert(positions@[3] < self.lens()[3]);
        assert(positions@[4] < self.lens()[4]);
        assert(positions@[5] < self.lens()[5]);
        assert(positions@[6] < self.lens()[6]);
        assert(positions@[7] < self.lens()[7]);
        (
            &self.0[positions[0]],
            &self.1[positions[1]],
            &self.2[positions[2]],
            &self.3[positions[3]],
            &self.4[positions[4]],
            &self.5[positions[5]],
            &self.6[positions[6]],
            &self.7[positions[7]],
        )
    }
}

impl<'a, 'b, 'c, 'd, 'e, 'f, 'g, 'h, 'i, A, B, C, D, E, F, G, H, I> Columns<9> for (&'a [A], &'b [B], &'c [C], &'d [D], &'e [E], &'f [F], &'g [G], &'h [H], &'i [I]) {
    type Item = (&'a A, &'b B, &'c C, &'d D, &'e E, &'f F, &'g G, &'h H, &'i I);

    open spec fn lens(&self) -> Seq<nat> {
        seq![
            self.0@.len(),
            self.1@.len(),
            self.2@.len(),
            self.3@.len(),
            self.4@.len(),
            self.5@.len(),
            self.6@.len(),
            self.7@.len(),
            self.8@.len(),
        ]
    }

    open spec fn item_at(&self, positions: Seq<usize>) -> (&'a A, &'b B, &'c C, &'d D, &'e E, &'f F, &'g G, &'h H, &'i I) {
        (
            &self.0@[positions[0] as int],
            &self.1@[positions[1] as int],
            &self.2@[positions[2] as int],
            &self.3@[positions[3] as int],
            &self.4@[positions[4] as int],
            &self.5@[positions[5] as int],
            &self.6@[positions[6] as int],
            &self.7@[positions[7] as int],
            &self.8@[positions[8] as int],
        )
    }

    fn fetch(&self, positions: &[usize; 9]) -> (item: (&'a A, &'b B, &'c C, &'d D, &'e E, &'f F, &'g G, &'h H, &'i I)) {
        assert(positions@[0] < self.lens()[0]);
        assert(positions@[1] < self.lens()[1]);
        assert(positions@[2] < self.lens()[2]);
        assert(positions@[3] < self.lens()[3]);
        assert(positions@[4] < self.lens()[4]);
        assert(positions@[5] < self.lens()[5]);
        assert(positions@[6] < self.lens()[6]);
        assert(positions@[7] < self.lens()[7]);
        assert(positions@[8] < self.lens()[8]);
        (
            &self.0[positions[0]],
            &self.1[positions[1]],
            &self.2[positions[2]],
            &self.3[positions[3]],
            &self.4[positions[4]],
            &self.5[positions[5]],
            &self.6[positions[6]],
            &self.7[positions[7]],
            &self.8[positions[8]],
        )
    }
}

impl<'a, 'b, 'c, 'd, 'e, 'f, 'g, 'h, 'i, 'j, A, B, C, D, E, F, G, H, I, J> Columns<10> for (&'a [A], &'b [B], &'c [C], &'d [D], &'e [E], &'f [F], &'g [G], &'h [H], &'i [I], &'j [J]) {
    type Item = (&'a A, &'b B, &'c C, &'d D, &'e E, &'f F, &'g G, &'h H, &'i I, &'j J);

    open spec fn lens(&self) -> Seq<nat> {
        seq![
            self.0@.len(),
            self.1@.len(),
            self.2@.len(),
            self.3@.len(),
            self.4@.len(),
            self.5@.len(),
            self.6@.len(),
            self.7@.len(),
            self.8@.len(),
            self.9@.len(),
        ]
    }

    open spec fn item_at(&self, positions: Seq<usize>) -> (&'a A, &'b B, &'c C, &'d D, &'e E, &'f F, &'g G, &'h H, &'i I, &'j J) {
        (
            &self.0@[positions[0] as int],
            &self.1@[positions[1] as int],
            &self.2@[positions[2] as int],
            &self.3@[positions[3] as int],
            &self.4@[positions[4] as int],
            &self.5@[positions[5] as int],
            &self.6@[positions[6] as int],
            &self.7@[positions[7] as int],
            &self.8@[positions[8] as int],
            &self.9@[positions[9] as int],
        )
    }

    fn fetch(&self, positions: &[usize; 10]) -> (item: (&'a A, &'b B, &'c C, &'d D, &'e E, &'f F, &'g G, &'h H, &'i I, &'j J)) {
        assert(positions@[0] < self.lens()[0]);
        assert(positions@[1] < self.lens()[1]);
        assert(positions@[2] < self.lens()[2]);
        assert(positions@[3] < self.lens()[3]);
        assert(positions@[4] < self.lens()[4]);
        assert(positions@[5] < self.lens()[5]);
        assert(positions@[6] < self.lens()[6]);
        assert(positions@[7] < self.lens()[7]);
        assert(positions@[8] < self.lens()[8]);
        assert(positions@[9] < self.lens()[9]);
        (
            &self.0[positions[0]],
            &self.1[positions[1]],
            &self.2[positions[2]],
            &self.3[positions[3]],
            &self.4[positions[4]],
            &self.5[positions[5]],
            &self.6[positions[6]],
            &self.7[positions[7]],
            &self.8[positions[8]],
            &self.9[positions[9]],
        )
    }
}

} // verus!
