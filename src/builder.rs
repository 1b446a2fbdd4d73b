//! Incremental construction of flattened containers.
use vstd::prelude::*;

use vstd::slice::slice_to_vec;

use crate::array::FlatArray;
use crate::iterator::{well_formed, FlattenedCollection};
use crate::layout::{lemma_push_keeps_layout, offsets_view, push_step, valid_layout};
use crate::str::FlatStr;
use crate::vector::FlatVec;

verus! {

/// Accumulates rows one at a time, then hands its buffers over to a
/// finished container.
#[derive(Debug)]
pub struct FlatBuilder<T> {
    content: Vec<T>,
    indices: Vec<usize>,
}

impl<T> FlatBuilder<T> {
    /// The elements pushed so far.
    pub closed spec fn content_view(&self) -> Seq<T> {
        self.content@
    }

    /// The offsets recorded so far, starting with zero.
    pub closed spec fn offsets_view(&self) -> Seq<int> {
        offsets_view(self.indices@)
    }

    /// The offsets partition the content.
    pub open spec fn wf(&self) -> bool {
        valid_layout(self.content_view().len(), self.offsets_view())
    }

    /// Starts with no rows: empty content and the single offset zero.
    pub fn new() -> (r: Self)
        ensures
            r.wf(),
            r.content_view() == Seq::<T>::empty(),
            r.offsets_view() == seq![0int],
    {
        let mut indices: Vec<usize> = Vec::new();
        indices.push(0);
        let r = FlatBuilder { content: Vec::new(), indices };
        assert(r.offsets_view() =~= seq![0int]);
        r
    }

    /// Records `end` as the end of the row just appended.
    fn close_row(&mut self, end: usize, Ghost(prev): Ghost<Seq<T>>, Ghost(row): Ghost<Seq<T>>)
        requires
            valid_layout(prev.len(), old(self).offsets_view()),
            old(self).content_view() == prev + row,
            end == prev.len() + row.len(),
        ensures
            final(self).wf(),
            final(self).content_view() == old(self).content_view(),
            (final(self).content_view(), final(self).offsets_view()) == push_step(
                prev,
                old(self).offsets_view(),
                row,
            ),
    {
        proof {
            lemma_push_keeps_layout(prev, old(self).offsets_view(), row);
        }
        self.indices.push(end);
        assert(self.offsets_view() =~= old(self).offsets_view().push(end as int));
    }

    /// Appends `item` as one more row, element by element, then records
    /// its end. An empty `item` records an empty row.
    pub fn push(&mut self, item: Vec<T>)
        requires
            old(self).wf(),
            old(self).content_view().len() + item@.len() <= usize::MAX,
        ensures
            final(self).wf(),
            (final(self).content_view(), final(self).offsets_view()) == push_step(
                old(self).content_view(),
                old(self).offsets_view(),
                item@,
            ),
    {
        let ghost prev = self.content@;
        let ghost offs = self.indices@;
        let mut current_indice: usize = self.content.len();
        for s in it: item
            invariant
                it.seq() == item@,
                self.content@ == prev + item@.take(it.index() as int),
                current_indice == self.content@.len(),
                prev.len() + item@.len() <= usize::MAX,
                self.indices@ == offs,
                valid_layout(prev.len(), offsets_view(offs)),
        {
            self.content.push(s);
            current_indice = current_indice + 1;
            assert(self.content@ =~= prev + item@.take(it.index() + 1));
        }
        assert(item@.take(item@.len() as int) =~= item@);
        self.close_row(current_indice, Ghost(prev), Ghost(item@));
    }

    /// Appends `item` as one more row. Its length is known beforehand, so
    /// the content grows once.
    pub fn push_exact_sized(&mut self, item: Vec<T>)
        requires
            old(self).wf(),
            old(self).content_view().len() + item@.len() <= usize::MAX,
        ensures
            final(self).wf(),
            (final(self).content_view(), final(self).offsets_view()) == push_step(
                old(self).content_view(),
                old(self).offsets_view(),
                item@,
            ),
    {
        let ghost prev = self.content@;
        let ghost row = item@;
        let end = self.content.len() + item.len();
        let mut item = item;
        self.content.reserve(item.len());
        self.content.append(&mut item);
        self.close_row(end, Ghost(prev), Ghost(row));
    }

    /// Appends a copy of each element of `item` as one more row.
    pub fn push_owned(&mut self, item: &[T])
        where
            T: Clone,
        requires
            old(self).wf(),
            old(self).content_view().len() + item@.len() <= usize::MAX,
        ensures
            final(self).wf(),
            final(self).content_view().len() == old(self).content_view().len() + item@.len(),
            final(self).content_view().subrange(0, old(self).content_view().len() as int)
                == old(self).content_view(),
            forall|i: int|
                0 <= i < item@.len() ==> cloned(
                    item@[i],
                    #[trigger] final(self).content_view()[old(self).content_view().len() + i],
                ),
            final(self).offsets_view() == old(self).offsets_view().push(
                final(self).content_view().len() as int,
            ),
    {
        let ghost prev = self.content@;
        let ghost offs = self.indices@;
        let mut i: usize = 0;
        while i < item.len()
            invariant
                i <= item@.len(),
                self.content@.len() == prev.len() + i,
                self.content@.subrange(0, prev.len() as int) == prev,
                forall|j: int|
                    0 <= j < i ==> cloned(item@[j], #[trigger] self.content@[prev.len() + j]),
                prev.len() + item@.len() <= usize::MAX,
                self.indices@ == offs,
                valid_layout(prev.len(), offsets_view(offs)),
            decreases item@.len() - i,
        {
            let e = item[i].clone();
            self.content.push(e);
            i = i + 1;
            assert(self.content@.subrange(0, prev.len() as int) =~= prev);
        }
        let ghost row = self.content@.subrange(prev.len() as int, self.content@.len() as int);
        assert(self.content@ =~= prev + row);
        let end = self.content.len();
        self.close_row(end, Ghost(prev), Ghost(row));
    }

    /// Appends the elements of `item` as one more row, moving each in turn.
    pub fn push_take(&mut self, item: Vec<T>)
        where
            T: Default,
        requires
            old(self).wf(),
            old(self).content_view().len() + item@.len() <= usize::MAX,
        ensures
            final(self).wf(),
            (final(self).content_view(), final(self).offsets_view()) == push_step(
                old(self).content_view(),
                old(self).offsets_view(),
                item@,
            ),
    {
        self.push(item)
    }

    /// Hands the buffers over to a growable container.
    pub fn build_flatvec(self) -> (r: FlatVec<T>)
        requires
            self.wf(),
        ensures
            well_formed(&r),
            r.content_view() == self.content_view(),
            r.offsets_view() == self.offsets_view(),
    {
        FlatVec::from_parts(self.content, self.indices)
    }

    /// Hands the buffers over to a fixed container.
    pub fn build_flatarray(self) -> (r: FlatArray<T>)
        requires
            self.wf(),
        ensures
            well_formed(&r),
            r.content_view() == self.content_view(),
            r.offsets_view() == self.offsets_view(),
    {
        FlatArray::from_parts(self.content, self.indices)
    }
}

impl FlatBuilder<u8> {
    /// Hands the byte buffers over to a string container.
    pub fn build_flatstr(self) -> (r: FlatStr)
        requires
            self.wf(),
        ensures
            well_formed(&r),
            r.content_view() == self.content_view(),
            r.offsets_view() == self.offsets_view(),
    {
        FlatVec::from_parts(self.content, self.indices)
    }
}

impl<T> Default for FlatBuilder<T> {
    /// Starts with no rows: empty content and the single offset zero.
    fn default() -> (r: Self)
        ensures
            r.wf(),
            r.content_view() == Seq::<T>::empty(),
            r.offsets_view() == seq![0int],
    {
        FlatBuilder::new()
    }
}

impl<T: Clone> Clone for FlatBuilder<T> {
    /// Clones every element and copies the offsets.
    fn clone(&self) -> (r: Self)
        ensures
            r.offsets_view() == self.offsets_view(),
            r.content_view().len() == self.content_view().len(),
            forall|i: int|
                0 <= i < self.content_view().len() ==> cloned(
                    self.content_view()[i],
                    #[trigger] r.content_view()[i],
                ),
    {
        let content = self.content.clone();
        let indices = slice_to_vec(&self.indices);
        FlatBuilder { content, indices }
    }
}

} // verus!
