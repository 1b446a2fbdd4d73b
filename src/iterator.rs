//! The row-access capability and the iterators built on it.
use vstd::prelude::*;

use std::marker::PhantomData;
use std::ops::Range;

use crate::layout::{flatten, lemma_rows_concat, offsets_view, row_of, rows_of, valid_layout};

verus! {

/// What a flattened container provides so that its rows can be walked
/// generically: its offsets, and borrows of ranges of its content.
pub trait FlattenedCollection<T> {
    /// The content buffer.
    spec fn content_view(&self) -> Seq<T>;

    /// The offset buffer.
    spec fn offsets_view(&self) -> Seq<int>;

    /// The number of offsets.
    fn indices_len(&self) -> (r: usize)
        ensures
            r == self.offsets_view().len(),
    ;

    /// The offset at `index`.
    fn get_indices(&self, index: usize) -> (r: usize)
        requires
            index < self.offsets_view().len(),
        ensures
            r == self.offsets_view()[index as int],
    ;

    /// Borrows the content in `range`.
    fn get_content(&self, range: Range<usize>) -> (r: &[T])
        requires
            range.start <= range.end <= self.content_view().len(),
        ensures
            r@ == self.content_view().subrange(range.start as int, range.end as int),
    ;

    /// Borrows the content in `range` mutably. What is written through the
    /// borrow replaces that range; the offsets and the length stay as they
    /// are.
    fn get_mut_content(&mut self, range: Range<usize>) -> (r: &mut [T])
        requires
            range.start <= range.end <= old(self).content_view().len(),
        ensures
            r@ == old(self).content_view().subrange(range.start as int, range.end as int),
            final(r)@.len() == r@.len(),
            final(self).offsets_view() == old(self).offsets_view(),
            final(self).content_view() == old(self).content_view().subrange(0, range.start as int)
                + final(r)@ + old(self).content_view().subrange(
                range.end as int,
                old(self).content_view().len() as int,
            ),
    ;

    /// Borrows the offsets and, at the same time, the whole content mutably.
    fn parts_mut(&mut self) -> (r: (&[usize], &mut [T]))
        ensures
            offsets_view(r.0@) == old(self).offsets_view(),
            r.1@ == old(self).content_view(),
            final(r.1)@.len() == r.1@.len(),
            final(self).offsets_view() == old(self).offsets_view(),
            final(self).content_view() == final(r.1)@,
    ;

    /// Whether there are no offsets at all.
    fn indices_empty(&self) -> (r: bool)
        ensures
            r == (self.offsets_view().len() == 0),
    {
        self.indices_len() == 0
    }
}

/// A boxed container gives access to the rows of the container inside.
impl<T, Flat: FlattenedCollection<T>> FlattenedCollection<T> for Box<Flat> {
    open spec fn content_view(&self) -> Seq<T> {
        (**self).content_view()
    }

    open spec fn offsets_view(&self) -> Seq<int> {
        (**self).offsets_view()
    }

    fn indices_len(&self) -> (r: usize) {
        (**self).indices_len()
    }

    fn get_indices(&self, index: usize) -> (r: usize) {
        (**self).get_indices(index)
    }

    fn get_content(&self, range: Range<usize>) -> (r: &[T]) {
        (**self).get_content(range)
    }

    fn get_mut_content(&mut self, range: Range<usize>) -> (r: &mut [T]) {
        (**self).get_mut_content(range)
    }

    fn parts_mut(&mut self) -> (r: (&[usize], &mut [T])) {
        (**self).parts_mut()
    }
}

/// The offsets of `f` partition its content.
pub open spec fn well_formed<T, F: FlattenedCollection<T>>(f: &F) -> bool {
    valid_layout(f.content_view().len(), f.offsets_view())
}

/// The rows of `f`, in order.
pub open spec fn rows_view<T, F: FlattenedCollection<T>>(f: &F) -> Seq<Seq<T>> {
    rows_of(f.content_view(), f.offsets_view())
}

/// Every well-formed container has one more offset than rows; its offsets
/// start at zero, end at the length of its content, and never decrease.
pub proof fn lemma_well_formed_shape<T, F: FlattenedCollection<T>>(f: &F)
    requires
        well_formed(f),
    ensures
        f.offsets_view().len() == rows_view(f).len() + 1,
        f.offsets_view()[0] == 0,
        f.offsets_view().last() == f.content_view().len(),
        forall|i: int|
            0 <= i < rows_view(f).len() ==> #[trigger] f.offsets_view()[i] <= f.offsets_view()[i
                + 1],
{
}

/// Walking every row of a well-formed container hands out exactly its rows:
/// one fewer than its offsets, and concatenated in order they give back its
/// content.
pub proof fn lemma_rows_cover_content<T, F: FlattenedCollection<T>>(f: &F)
    requires
        well_formed(f),
    ensures
        rows_view(f).len() + 1 == f.offsets_view().len(),
        flatten(rows_view(f)) == f.content_view(),
{
    lemma_rows_concat(f.content_view(), f.offsets_view());
}

/// Relies on `<[T]>::get_mut` with a range: within bounds it hands out the
/// sub-slice that the range covers, and what is written through it lands in
/// `s`. A slice keeps its length through a mutable borrow.
#[verifier::external_body]
pub(crate) fn slice_range_mut<T>(s: &mut [T], start: usize, end: usize) -> (r: &mut [T])
    requires
        start <= end <= old(s)@.len(),
    ensures
        r@ == old(s)@.subrange(start as int, end as int),
        final(r)@.len() == r@.len(),
        final(s)@ == old(s)@.subrange(0, start as int) + final(r)@ + old(s)@.subrange(
            end as int,
            old(s)@.len() as int,
        ),
{
    s.get_mut(start..end).unwrap()
}

/// Walks the rows of a flattened container, handing out each as a shared
/// slice of its content.
#[derive(Debug)]
pub struct Iter<'a, Flat, T> where Flat: FlattenedCollection<T>, T: 'a {
    position: usize,
    token_vecs: &'a Flat,
    phantom_data: PhantomData<T>,
}

impl<'a, Flat, T> Clone for Iter<'a, Flat, T> where Flat: FlattenedCollection<T>, T: 'a {
    /// An iterator at the same position over the same container.
    fn clone(&self) -> (r: Self)
        ensures
            r == *self,
    {
        Iter { position: self.position, token_vecs: self.token_vecs, phantom_data: PhantomData }
    }
}

impl<'a, Flat, T> Iter<'a, Flat, T> where Flat: FlattenedCollection<T> {
    /// The iterator is positioned within the rows of a well-formed container.
    pub closed spec fn wf(&self) -> bool {
        &&& well_formed(self.token_vecs)
        &&& self.position < self.token_vecs.offsets_view().len()
    }

    /// All rows of the container, whether handed out yet or not.
    pub closed spec fn rows(&self) -> Seq<Seq<T>> {
        rows_view(self.token_vecs)
    }

    /// How many rows have been handed out.
    pub closed spec fn pos(&self) -> nat {
        self.position as nat
    }

    /// Starts before the first row of `token_vecs`.
    pub fn new(token_vecs: &'a Flat) -> (r: Self)
        requires
            well_formed(token_vecs),
        ensures
            r.wf(),
            r.rows() == rows_view(token_vecs),
            r.pos() == 0,
    {
        Iter { position: 0, token_vecs, phantom_data: PhantomData }
    }

    /// Hands out the next row, or `None` once every row has been handed out.
    pub fn next(&mut self) -> (r: Option<&'a [T]>)
        requires
            old(self).wf(),
        ensures
            final(self).wf(),
            final(self).rows() == old(self).rows(),
            old(self).pos() < old(self).rows().len() ==> {
                &&& r is Some
                &&& r->0@ == old(self).rows()[old(self).pos() as int]
                &&& final(self).pos() == old(self).pos() + 1
            },
            old(self).pos() >= old(self).rows().len() ==> r is None && final(self).pos()
                == old(self).pos(),
    {
        if self.token_vecs.indices_empty() || self.position >= self.token_vecs.indices_len() - 1 {
            return None;
        }
        let start = self.token_vecs.get_indices(self.position);
        let end = self.token_vecs.get_indices(self.position + 1);
        self.position = self.position + 1;
        Some(self.token_vecs.get_content(start..end))
    }
}

/// Walks the rows of a flattened container, handing out each as a mutable
/// slice. The slices are split off the content one after the other, so no
/// two of them overlap.
pub struct IterMut<'a, T> {
    offsets: &'a [usize],
    rest: Option<&'a mut [T]>,
    position: usize,
    content: Ghost<Seq<T>>,
}

impl<'a, T> IterMut<'a, T> {
    /// The part of the content not handed out yet is the tail that starts
    /// at the current row.
    pub closed spec fn wf(&self) -> bool {
        let offs = offsets_view(self.offsets@);
        &&& valid_layout(self.content@.len(), offs)
        &&& self.position < offs.len()
        &&& self.rest is Some
        &&& self.rest->0@ == self.content@.subrange(
            offs[self.position as int],
            self.content@.len() as int,
        )
    }

    /// All rows of the container as they were when iteration started.
    pub closed spec fn rows(&self) -> Seq<Seq<T>> {
        rows_of(self.content@, offsets_view(self.offsets@))
    }

    /// How many rows have been handed out.
    pub closed spec fn pos(&self) -> nat {
        self.position as nat
    }

    /// Starts before the first row of `token_vecs`, which stays borrowed
    /// until the iterator is dropped; its offsets and its length do not
    /// change.
    pub fn new<Flat: FlattenedCollection<T>>(token_vecs: &'a mut Flat) -> (r: Self)
        requires
            well_formed(&*old(token_vecs)),
        ensures
            r.wf(),
            r.rows() == rows_view(&*old(token_vecs)),
            r.pos() == 0,
            final(token_vecs).offsets_view() == old(token_vecs).offsets_view(),
            final(token_vecs).content_view().len() == old(token_vecs).content_view().len(),
            well_formed(&*final(token_vecs)),
    {
        let ghost content = token_vecs.content_view();
        let (offsets, whole) = token_vecs.parts_mut();
        assert(content.subrange(0, content.len() as int) =~= content);
        IterMut { offsets, rest: Some(whole), position: 0, content: Ghost(content) }
    }

    /// Hands out the next row, or `None` once every row has been handed out.
    pub fn next(&mut self) -> (r: Option<&'a mut [T]>)
        requires
            old(self).wf(),
        ensures
            final(self).wf(),
            final(self).rows() == old(self).rows(),
            old(self).pos() < old(self).rows().len() ==> {
                &&& r is Some
                &&& r->0@ == old(self).rows()[old(self).pos() as int]
                &&& final(self).pos() == old(self).pos() + 1
            },
            old(self).pos() >= old(self).rows().len() ==> r is None && final(self).pos()
                == old(self).pos(),
    {
        if self.position >= self.offsets.len() - 1 {
            return None;
        }
        let start = self.offsets[self.position];
        let end = self.offsets[self.position + 1];
        let ghost offs = offsets_view(self.offsets@);
        let ghost i = self.position as int;
        assert(offs[i] == start && offs[i + 1] == end);
        match self.rest.take() {
            Some(rest) => {
                let (head, tail) = rest.split_at_mut(end - start);
                assert(head@ =~= row_of(self.content@, offs, i));
                assert(tail@ =~= self.content@.subrange(offs[i + 1], self.content@.len() as int));
                self.rest = Some(tail);
                self.position = self.position + 1;
                Some(head)
            },
            None => None,
        }
    }
}

} // verus!
