//! A cache-friendly container for a sequence of variable-length rows.
//!
//! All rows share one content buffer; an offset buffer marks where each row
//! starts and ends. Row `i` is `content[offsets[i]..offsets[i + 1]]`.
use vstd::prelude::*;

pub mod layout;
mod array;
mod builder;
mod iterator;
mod str;
mod vector;

pub use array::FlatArray;
pub use builder::FlatBuilder;
pub use iterator::{FlattenedCollection, Iter, IterMut};
pub use str::{FlatStr, StrIter};
pub use vector::FlatVec;

verus! {

} // verus!
