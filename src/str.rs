//! Rows of UTF-8 text.
use vstd::prelude::*;

use vstd::string::StrSliceExecFns;
use vstd::utf8::{encode_utf8, encode_utf8_valid_utf8, valid_utf8};

use crate::builder::FlatBuilder;
use crate::iterator::{rows_view, well_formed, FlattenedCollection, Iter};
use crate::layout::{
    after_pushes, flatten, lemma_offsets_of_valid, lemma_prefix_len, lemma_pushes_match_bulk,
    lemma_take_step, offsets_of,
};
use crate::vector::FlatVec;

verus! {

/// A growable container whose rows are the UTF-8 bytes of strings.
pub type FlatStr = FlatVec<u8>;

/// The UTF-8 encodings of `strings`, one row each.
pub open spec fn text_rows(strings: Seq<String>) -> Seq<Seq<u8>> {
    strings.map_values(|s: String| encode_utf8(s@))
}

/// Every row of `f` is valid UTF-8.
pub open spec fn rows_are_text<F: FlattenedCollection<u8>>(f: &F) -> bool {
    forall|i: int| 0 <= i < rows_view(f).len() ==> valid_utf8(#[trigger] rows_view(f)[i])
}

/// Relies on `std::str::from_utf8`: it accepts exactly the byte strings that
/// are valid UTF-8, and the text it then returns is made of those bytes.
#[verifier::external_body]
fn utf8_text<'a>(bytes: &'a [u8]) -> (r: Option<&'a str>)
    ensures
        r is Some <==> valid_utf8(bytes@),
        r matches Some(s) ==> encode_utf8(s@) == bytes@,
{
    std::str::from_utf8(bytes).ok()
}

impl FlatVec<u8> {
    /// Stores the UTF-8 bytes of each string as one row, in order.
    pub fn from_strings(strings: Vec<String>) -> (r: Self)
        requires
            flatten(text_rows(strings@)).len() <= usize::MAX,
        ensures
            well_formed(&r),
            rows_are_text(&r),
            r.content_view() == flatten(text_rows(strings@)),
            r.offsets_view() == offsets_of(text_rows(strings@)),
    {
        let ghost rows = text_rows(strings@);
        let mut builder: FlatBuilder<u8> = FlatBuilder::default();
        let mut i: usize = 0;
        while i < strings.len()
            invariant
                i <= strings@.len(),
                rows == text_rows(strings@),
                flatten(rows).len() <= usize::MAX,
                builder.wf(),
                (builder.content_view(), builder.offsets_view()) == after_pushes(
                    rows.take(i as int),
                ),
            decreases strings@.len() - i,
        {
            let bytes = strings[i].as_str().as_bytes_vec();
            proof {
                lemma_pushes_match_bulk(rows.take(i as int));
                lemma_take_step(rows, i as int);
                lemma_prefix_len(rows, i as int + 1);
                assert(rows.take(i as int + 1).drop_last() =~= rows.take(i as int));
            }
            builder.push(bytes);
            i = i + 1;
        }
        proof {
            assert(rows.take(i as int) =~= rows);
            lemma_pushes_match_bulk(rows);
            lemma_offsets_of_valid(rows);
        }
        let r = builder.build_flatvec();
        proof {
            lemma_text_rows(strings@, r.content_view(), r.offsets_view());
        }
        r
    }

    /// Iterates over the rows, each read as a string.
    pub fn iter_strings(&self) -> (r: StrIter<'_>)
        requires
            well_formed(self),
            rows_are_text(self),
        ensures
            r.wf(),
            r.rows() == rows_view(self),
            r.pos() == 0,
    {
        StrIter(Iter::new(self))
    }
}

/// The rows cut out of the flattened encodings of some strings are valid
/// UTF-8.
proof fn lemma_text_rows(strings: Seq<String>, content: Seq<u8>, offsets: Seq<int>)
    requires
        content == flatten(text_rows(strings)),
        offsets == offsets_of(text_rows(strings)),
    ensures
        forall|i: int|
            0 <= i < crate::layout::rows_of(content, offsets).len() ==> valid_utf8(
                #[trigger] crate::layout::rows_of(content, offsets)[i],
            ),
{
    let rows = text_rows(strings);
    crate::layout::lemma_round_trip(rows);
    assert forall|i: int|
        0 <= i < crate::layout::rows_of(content, offsets).len() implies valid_utf8(
        #[trigger] crate::layout::rows_of(content, offsets)[i],
    ) by {
        encode_utf8_valid_utf8(strings[i]@);
    }
}

/// Walks the rows of a string container, handing out each as a `&str`.
pub struct StrIter<'a>(pub(crate) Iter<'a, FlatStr, u8>);

impl<'a> StrIter<'a> {
    /// Positioned within rows that are all valid UTF-8.
    pub closed spec fn wf(&self) -> bool {
        &&& self.0.wf()
        &&& forall|i: int| 0 <= i < self.0.rows().len() ==> valid_utf8(#[trigger] self.0.rows()[i])
    }

    /// All rows of the container, as bytes.
    pub closed spec fn rows(&self) -> Seq<Seq<u8>> {
        self.0.rows()
    }

    /// How many rows have been handed out.
    pub closed spec fn pos(&self) -> nat {
        self.0.pos()
    }

    /// Hands out the next row as a string, or `None` once every row has been
    /// handed out.
    pub fn next(&mut self) -> (r: Option<&'a str>)
        requires
            old(self).wf(),
        ensures
            final(self).wf(),
            final(self).rows() == old(self).rows(),
            old(self).pos() < old(self).rows().len() ==> {
                &&& r is Some
                &&& encode_utf8(r->0@) == old(self).rows()[old(self).pos() as int]
                &&& final(self).pos() == old(self).pos() + 1
            },
            old(self).pos() >= old(self).rows().len() ==> r is None && final(self).pos()
                == old(self).pos(),
    {
        match self.0.next() {
            None => None,
            Some(bytes) => utf8_text(bytes),
        }
    }
}

} // verus!
