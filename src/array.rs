//! The fixed flattened container.
use vstd::prelude::*;

use std::ops::Range;

use vstd::slice::slice_to_vec;
use vstd::std_specs::slice::into_iter_elts;

use crate::iterator::{rows_view, slice_range_mut, well_formed, FlattenedCollection, Iter, IterMut};
use crate::layout::{
    flatten, layout_is_valid, lemma_whole_range, nested_view, offsets_of, offsets_view,
    valid_layout,
};
use crate::vector::flatten_rows;

verus! {

/// Rows of `T` kept in one fixed content buffer, with a fixed buffer of
/// offsets that marks where each row starts and ends: two allocations in
/// all, whatever the number of rows.
#[derive(Debug, Eq, PartialEq, PartialOrd, Ord, Hash)]
pub struct FlatArray<T> {
    content: Box<[T]>,
    indices: Box<[usize]>,
}

/// Relies on `Vec::into_boxed_slice`: the boxed slice holds the vector's
/// elements, in order.
#[verifier::external_body]
pub(crate) fn boxed<T>(v: Vec<T>) -> (r: Box<[T]>)
    ensures
        r@ == v@,
{
    v.into_boxed_slice()
}

impl<T> FlattenedCollection<T> for FlatArray<T> {
    closed spec fn content_view(&self) -> Seq<T> {
        self.content@
    }

    closed spec fn offsets_view(&self) -> Seq<int> {
        offsets_view(self.indices@)
    }

    fn indices_len(&self) -> (r: usize) {
        self.indices.len()
    }

    fn get_indices(&self, index: usize) -> (r: usize) {
        self.indices[index]
    }

    fn get_content(&self, range: Range<usize>) -> (r: &[T]) {
        &self.content[range]
    }

    fn get_mut_content(&mut self, range: Range<usize>) -> (r: &mut [T]) {
        slice_range_mut(&mut self.content, range.start, range.end)
    }

    fn parts_mut(&mut self) -> (r: (&[usize], &mut [T])) {
        let len = self.content.len();
        let whole = slice_range_mut(&mut self.content, 0, len);
        proof {
            lemma_whole_range(old(self).content_view(), final(whole)@);
        }
        (&self.indices, whole)
    }
}

impl<T> std::ops::Deref for FlatArray<T> {
    type Target = [T];

    /// The content, so that the container reads as one slice.
    fn deref(&self) -> (r: &[T])
        ensures
            r@ == self.content_view(),
    {
        &self.content
    }
}

impl<T> Default for FlatArray<T> {
    /// No rows: empty content and the single offset zero.
    fn default() -> (r: Self)
        ensures
            well_formed(&r),
            r.content_view() == Seq::<T>::empty(),
            r.offsets_view() == seq![0int],
    {
        let mut indices: Vec<usize> = Vec::new();
        indices.push(0);
        let r = FlatArray { content: boxed(Vec::new()), indices: boxed(indices) };
        assert(r.offsets_view() =~= seq![0int]);
        r
    }
}

impl<T> FlatArray<T> {
    /// Freezes the two buffers as they are.
    pub(crate) fn from_parts(content: Vec<T>, indices: Vec<usize>) -> (r: Self)
        ensures
            r.content_view() == content@,
            r.offsets_view() == offsets_view(indices@),
    {
        FlatArray { content: boxed(content), indices: boxed(indices) }
    }

    /// Builds the container from nested rows, allocating each buffer once.
    pub fn new(vecs: Vec<Vec<T>>) -> (r: Self)
        requires
            flatten(nested_view(vecs@)).len() <= usize::MAX,
        ensures
            well_formed(&r),
            r.content_view() == flatten(nested_view(vecs@)),
            r.offsets_view() == offsets_of(nested_view(vecs@)),
    {
        let (content, indices) = flatten_rows(vecs);
        FlatArray::from_parts(content, indices)
    }

    /// Takes the two buffers as they are, provided that the offsets
    /// partition the content; `None` otherwise.
    pub fn from_raw(content: Box<[T]>, indices: Box<[usize]>) -> (r: Option<Self>)
        ensures
            r is Some <==> valid_layout(content@.len(), offsets_view(indices@)),
            r matches Some(a) ==> {
                &&& a.content_view() == content@
                &&& a.offsets_view() == offsets_view(indices@)
            },
    {
        if layout_is_valid(content.len(), &indices) {
            Some(FlatArray { content, indices })
        } else {
            None
        }
    }

    /// Borrows the content as one slice.
    pub fn get_content(&self) -> (r: &[T])
        ensures
            r@ == self.content_view(),
    {
        &self.content
    }

    /// Borrows the offsets.
    pub fn get_offsets(&self) -> (r: &[usize])
        ensures
            offsets_view(r@) == self.offsets_view(),
    {
        &self.indices
    }

    /// Gives up the two buffers.
    pub fn into_raw(self) -> (r: (Box<[T]>, Box<[usize]>))
        ensures
            r.0@ == self.content_view(),
            offsets_view(r.1@) == self.offsets_view(),
    {
        (self.content, self.indices)
    }

    /// Iterates over the elements of all rows, in order.
    pub fn iter(&self) -> (r: std::slice::Iter<'_, T>)
        ensures
            into_iter_elts(r) == self.content_view(),
    {
        self.content.iter()
    }

    /// Iterates over the rows, each a shared slice of the content.
    pub fn iter_arrays(&self) -> (r: Iter<'_, FlatArray<T>, T>)
        requires
            well_formed(self),
        ensures
            r.wf(),
            r.rows() == rows_view(self),
            r.pos() == 0,
    {
        Iter::new(self)
    }

    /// Iterates over the rows, each a mutable slice of the content; the
    /// offsets and the length of the content stay as they are.
    pub fn iter_arrays_mut(&mut self) -> (r: IterMut<'_, T>)
        requires
            well_formed(&*old(self)),
        ensures
            r.wf(),
            r.rows() == rows_view(&*old(self)),
            r.pos() == 0,
            final(self).offsets_view() == old(self).offsets_view(),
            final(self).content_view().len() == old(self).content_view().len(),
            well_formed(&*final(self)),
    {
        IterMut::new(self)
    }
}

impl<T: Clone> Clone for FlatArray<T> {
    /// Clones every element and copies the offsets.
    fn clone(&self) -> (r: Self)
        ensures
            r.offsets_view() == self.offsets_view(),
            r.content_view().len() == self.content_view().len(),
            forall|i: int|
                0 <= i < self.content_view().len() ==> cloned(
                    self.content_view()[i],
                    #[trigger] r.content_view()[i],
                ),
    {
        let mut content: Vec<T> = Vec::with_capacity(self.content.len());
        let mut i: usize = 0;
        while i < self.content.len()
            invariant
                i <= self.content@.len(),
                content@.len() == i,
                forall|j: int| 0 <= j < i ==> cloned(self.content@[j], #[trigger] content@[j]),
            decreases self.content@.len() - i,
        {
            content.push(self.content[i].clone());
            i = i + 1;
        }
        let indices = slice_to_vec(&self.indices);
        FlatArray::from_parts(content, indices)
    }
}

} // verus!
