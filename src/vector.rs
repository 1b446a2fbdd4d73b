//! The growable flattened container.
use vstd::prelude::*;

use std::ops::Range;

use vstd::slice::slice_to_vec;
use vstd::std_specs::slice::into_iter_elts;

use crate::iterator::{rows_view, slice_range_mut, well_formed, FlattenedCollection, Iter, IterMut};
use crate::layout::{
    flatten, layout_is_valid, lemma_offsets_of_valid, lemma_offsets_step, lemma_prefix_len,
    lemma_take_step, lemma_whole_range, nested_view, offsets_of, offsets_view, valid_layout,
};

verus! {

/// Rows of `T` kept in one resizable content buffer, with a resizable buffer
/// of offsets that marks where each row starts and ends.
#[derive(Debug, Eq, PartialEq, PartialOrd, Ord, Hash)]
pub struct FlatVec<T> {
    content: Vec<T>,
    indices: Vec<usize>,
}

impl<T> FlatVec<T> {
    /// Takes the two buffers as they are.
    pub(crate) fn from_parts(content: Vec<T>, indices: Vec<usize>) -> (r: Self)
        ensures
            r.content_view() == content@,
            r.offsets_view() == offsets_view(indices@),
    {
        FlatVec { content, indices }
    }

    /// Builds the container from nested rows, allocating each buffer once.
    pub fn new(vecs: Vec<Vec<T>>) -> (r: Self)
        requires
            flatten(nested_view(vecs@)).len() <= usize::MAX,
        ensures
            well_formed(&r),
            r.content_view() == flatten(nested_view(vecs@)),
            r.offsets_view() == offsets_of(nested_view(vecs@)),
    {
        let (content, indices) = flatten_rows(vecs);
        FlatVec { content, indices }
    }

    /// Takes the two buffers as they are, provided that the offsets
    /// partition the content; `None` otherwise.
    pub fn from_raw(content: Vec<T>, indices: Vec<usize>) -> (r: Option<Self>)
        ensures
            r is Some <==> valid_layout(content@.len(), offsets_view(indices@)),
            r matches Some(v) ==> {
                &&& v.content_view() == content@
                &&& v.offsets_view() == offsets_view(indices@)
            },
    {
        if layout_is_valid(content.len(), indices.as_slice()) {
            Some(FlatVec { content, indices })
        } else {
            None
        }
    }

    /// Borrows the content as one slice.
    pub fn get_content(&self) -> (r: &[T])
        ensures
            r@ == self.content_view(),
    {
        self.content.as_slice()
    }

    /// Borrows the offsets.
    pub fn get_offsets(&self) -> (r: &[usize])
        ensures
            offsets_view(r@) == self.offsets_view(),
    {
        self.indices.as_slice()
    }

    /// Gives up the two buffers.
    pub fn into_raw(self) -> (r: (Vec<T>, Vec<usize>))
        ensures
            r.0@ == self.content_view(),
            offsets_view(r.1@) == self.offsets_view(),
    {
        (self.content, self.indices)
    }

    /// Iterates over the elements of all rows, in order.
    pub fn iter(&self) -> (r: std::slice::Iter<'_, T>)
        ensures
            into_iter_elts(r) == self.content_view(),
    {
        self.content.as_slice().iter()
    }

    /// Iterates over the rows, each a shared slice of the content.
    pub fn iter_arrays(&self) -> (r: Iter<'_, FlatVec<T>, T>)
        requires
            well_formed(self),
        ensures
            r.wf(),
            r.rows() == rows_view(self),
            r.pos() == 0,
    {
        Iter::new(self)
    }

    /// Iterates over the rows, each a mutable slice of the content; the
    /// offsets and the length of the content stay as they are.
    pub fn iter_arrays_mut(&mut self) -> (r: IterMut<'_, T>)
        requires
            well_formed(&*old(self)),
        ensures
            r.wf(),
            r.rows() == rows_view(&*old(self)),
            r.pos() == 0,
            final(self).offsets_view() == old(self).offsets_view(),
            final(self).content_view().len() == old(self).content_view().len(),
            well_formed(&*final(self)),
    {
        IterMut::new(self)
    }
}

/// Moves the rows of `vecs` into one content buffer and records after each
/// row the running length as its end offset. A first pass sums the row
/// lengths, so that each buffer is allocated once.
pub(crate) fn flatten_rows<T>(vecs: Vec<Vec<T>>) -> (r: (Vec<T>, Vec<usize>))
    requires
        flatten(nested_view(vecs@)).len() <= usize::MAX,
    ensures
        r.0@ == flatten(nested_view(vecs@)),
        offsets_view(r.1@) == offsets_of(nested_view(vecs@)),
        valid_layout(r.0@.len(), offsets_view(r.1@)),
{
    let ghost rows = nested_view(vecs@);
    let mut total: usize = 0;
    let mut i: usize = 0;
    while i < vecs.len()
        invariant
            i <= vecs@.len(),
            rows == nested_view(vecs@),
            flatten(rows).len() <= usize::MAX,
            total == flatten(rows.take(i as int)).len(),
        decreases vecs@.len() - i,
    {
        proof {
            lemma_take_step(rows, i as int);
            lemma_prefix_len(rows, i as int + 1);
        }
        total = total + vecs[i].len();
        i = i + 1;
    }
    let mut content: Vec<T> = Vec::with_capacity(total);
    let mut indices: Vec<usize> = Vec::with_capacity(vecs.len().saturating_add(1));
    indices.push(0);
    let ghost n = vecs@.len();
    for row in it: vecs
        invariant
            it.seq() == vecs@,
            rows == nested_view(vecs@),
            n == vecs@.len(),
            flatten(rows).len() <= usize::MAX,
            content@ == flatten(rows.take(it.index() as int)),
            offsets_view(indices@) == offsets_of(rows.take(it.index() as int)),
    {
        let mut row = row;
        proof {
            lemma_take_step(rows, it.index() as int);
            lemma_prefix_len(rows, it.index() as int + 1);
        }
        content.append(&mut row);
        let end = content.len();
        proof {
            lemma_offsets_step(rows, it.index() as int);
            assert(offsets_view(indices@.push(end)) =~= offsets_view(indices@).push(end as int));
        }
        indices.push(end);
    }
    assert(rows.take(n as int) =~= rows);
    proof {
        lemma_offsets_of_valid(rows);
    }
    (content, indices)
}

impl<T> FlattenedCollection<T> for FlatVec<T> {
    closed spec fn content_view(&self) -> Seq<T> {
        self.content@
    }

    closed spec fn offsets_view(&self) -> Seq<int> {
        offsets_view(self.indices@)
    }

    fn indices_len(&self) -> (r: usize) {
        self.indices.len()
    }

    fn get_indices(&self, index: usize) -> (r: usize) {
        self.indices[index]
    }

    fn get_content(&self, range: Range<usize>) -> (r: &[T]) {
        &self.content.as_slice()[range]
    }

    fn get_mut_content(&mut self, range: Range<usize>) -> (r: &mut [T]) {
        slice_range_mut(self.content.as_mut_slice(), range.start, range.end)
    }

    fn parts_mut(&mut self) -> (r: (&[usize], &mut [T])) {
        let len = self.content.len();
        let whole = slice_range_mut(self.content.as_mut_slice(), 0, len);
        proof {
            lemma_whole_range(old(self).content_view(), final(whole)@);
        }
        (self.indices.as_slice(), whole)
    }
}

impl<T: Clone> Clone for FlatVec<T> {
    /// Clones every element and copies the offsets.
    fn clone(&self) -> (r: Self)
        ensures
            r.offsets_view() == self.offsets_view(),
            r.content_view().len() == self.content_view().len(),
            forall|i: int|
                0 <= i < self.content_view().len() ==> cloned(
                    self.content_view()[i],
                    #[trigger] r.content_view()[i],
                ),
    {
        let content = self.content.clone();
        let indices = slice_to_vec(&self.indices);
        FlatVec { content, indices }
    }
}

} // verus!
