//! The mathematical model of a flattened ragged array, the laws it obeys,
//! and the test of raw offsets against it.
use vstd::prelude::*;

verus! {

/// The concatenation of `rows`, in order.
pub open spec fn flatten<T>(rows: Seq<Seq<T>>) -> Seq<T>
    decreases rows.len(),
{
    if rows.len() == 0 {
        Seq::empty()
    } else {
        flatten(rows.drop_last()) + rows.last()
    }
}

/// The offsets that delimit `rows` once flattened: offset `i` is the total
/// length of the first `i` rows, so there is one more offset than rows.
pub open spec fn offsets_of<T>(rows: Seq<Seq<T>>) -> Seq<int> {
    Seq::new(rows.len() + 1, |i: int| flatten(rows.take(i)).len() as int)
}

/// Offsets that partition a content buffer of length `len`: they start at
/// zero, end at `len`, and never decrease.
pub open spec fn valid_layout(len: nat, offsets: Seq<int>) -> bool {
    &&& offsets.len() >= 1
    &&& offsets[0] == 0
    &&& offsets.last() == len
    &&& forall|i: int, j: int| 0 <= i <= j < offsets.len() ==> offsets[i] <= offsets[j]
}

/// Row `i` of the content delimited by `offsets`.
pub open spec fn row_of<T>(content: Seq<T>, offsets: Seq<int>, i: int) -> Seq<T> {
    content.subrange(offsets[i], offsets[i + 1])
}

/// The rows that `offsets` cut out of `content`, in order.
pub open spec fn rows_of<T>(content: Seq<T>, offsets: Seq<int>) -> Seq<Seq<T>> {
    Seq::new((offsets.len() - 1) as nat, |i: int| row_of(content, offsets, i))
}

/// The buffers after appending `row` as one more row: its elements join the
/// content and the new content length joins the offsets.
pub open spec fn push_step<T>(content: Seq<T>, offsets: Seq<int>, row: Seq<T>) -> (
    Seq<T>,
    Seq<int>,
) {
    (content + row, offsets.push((content.len() + row.len()) as int))
}

/// The buffers after appending each of `rows`, in order, to empty content
/// with the single offset zero.
pub open spec fn after_pushes<T>(rows: Seq<Seq<T>>) -> (Seq<T>, Seq<int>)
    decreases rows.len(),
{
    if rows.len() == 0 {
        (Seq::empty(), seq![0])
    } else {
        let prev = after_pushes(rows.drop_last());
        push_step(prev.0, prev.1, rows.last())
    }
}

/// An offset buffer seen as mathematical integers.
pub open spec fn offsets_view(indices: Seq<usize>) -> Seq<int> {
    indices.map_values(|o: usize| o as int)
}

/// The rows of a nested vector, as sequences.
pub open spec fn nested_view<T>(rows: Seq<Vec<T>>) -> Seq<Seq<T>> {
    rows.map_values(|r: Vec<T>| r@)
}

/// Flattening distributes over concatenation of row sequences.
pub proof fn lemma_flatten_append<T>(a: Seq<Seq<T>>, b: Seq<Seq<T>>)
    ensures
        flatten(a + b) == flatten(a) + flatten(b),
    decreases b.len(),
{
    if b.len() == 0 {
        assert(a + b =~= a);
        assert(flatten(a) + flatten(b) =~= flatten(a));
    } else {
        lemma_flatten_append(a, b.drop_last());
        assert((a + b).drop_last() =~= a + b.drop_last());
        assert((a + b).last() == b.last());
        assert(flatten(a + b) =~= flatten(a) + flatten(b));
    }
}

/// Taking one more row appends that row to the flattened prefix.
pub proof fn lemma_take_step<T>(rows: Seq<Seq<T>>, i: int)
    requires
        0 <= i < rows.len(),
    ensures
        flatten(rows.take(i + 1)) == flatten(rows.take(i)) + rows[i],
{
    assert(rows.take(i + 1).drop_last() =~= rows.take(i));
}

/// A flattened prefix of the rows is a prefix of the flattened rows.
pub proof fn lemma_prefix_len<T>(rows: Seq<Seq<T>>, i: int)
    requires
        0 <= i <= rows.len(),
    ensures
        flatten(rows) == flatten(rows.take(i)) + flatten(rows.skip(i)),
        flatten(rows.take(i)).len() <= flatten(rows).len(),
{
    lemma_flatten_append(rows.take(i), rows.skip(i));
    assert(rows.take(i) + rows.skip(i) =~= rows);
}

/// Taking one more row appends that row's end to the offsets.
pub proof fn lemma_offsets_step<T>(rows: Seq<Seq<T>>, i: int)
    requires
        0 <= i < rows.len(),
    ensures
        offsets_of(rows.take(i + 1)) == offsets_of(rows.take(i)).push(
            flatten(rows.take(i + 1)).len() as int,
        ),
{
    let a = offsets_of(rows.take(i + 1));
    let b = offsets_of(rows.take(i)).push(flatten(rows.take(i + 1)).len() as int);
    assert forall|j: int| 0 <= j < a.len() implies a[j] == b[j] by {
        if j <= i {
            assert(rows.take(i + 1).take(j) =~= rows.take(i).take(j));
        } else {
            assert(rows.take(i + 1).take(j) =~= rows.take(i + 1));
        }
    }
    assert(a =~= b);
}

/// The offsets of any nested rows partition their flattening.
pub proof fn lemma_offsets_of_valid<T>(rows: Seq<Seq<T>>)
    ensures
        valid_layout(flatten(rows).len(), offsets_of(rows)),
        offsets_of(rows).len() == rows.len() + 1,
{
    let offs = offsets_of(rows);
    assert(rows.take(0) =~= Seq::<Seq<T>>::empty());
    assert(rows.take(rows.len() as int) =~= rows);
    assert forall|i: int, j: int| 0 <= i <= j < offs.len() implies offs[i] <= offs[j] by {
        lemma_prefix_len(rows.take(j), i);
        assert(rows.take(j).take(i) =~= rows.take(i));
    }
}

/// Replacing the whole of `s` by `x` leaves `x`.
pub proof fn lemma_whole_range<T>(s: Seq<T>, x: Seq<T>)
    ensures
        s.subrange(0, 0) + x + s.subrange(s.len() as int, s.len() as int) == x,
{
    assert(s.subrange(0, 0) + x + s.subrange(s.len() as int, s.len() as int) =~= x);
}

/// Whether `indices` partition a content buffer of length `len`.
pub fn layout_is_valid(len: usize, indices: &[usize]) -> (r: bool)
    ensures
        r == valid_layout(len as nat, offsets_view(indices@)),
{
    let ghost offs = offsets_view(indices@);
    let n = indices.len();
    if n == 0 || indices[0] != 0 || indices[n - 1] != len {
        return false;
    }
    let mut k: usize = 1;
    while k < n
        invariant
            1 <= k <= n,
            n == indices@.len(),
            offs == offsets_view(indices@),
            offs[0] == 0,
            forall|i: int, j: int| 0 <= i <= j < k ==> offs[i] <= offs[j],
        decreases n - k,
    {
        if indices[k - 1] > indices[k] {
            assert(offs[k - 1] > offs[k as int]);
            return false;
        }
        k = k + 1;
    }
    true
}

/// Appending a row keeps the offsets a partition of the content, and adds
/// exactly that row after the others.
pub proof fn lemma_push_keeps_layout<T>(content: Seq<T>, offsets: Seq<int>, row: Seq<T>)
    requires
        valid_layout(content.len(), offsets),
    ensures
        valid_layout(push_step(content, offsets, row).0.len(), push_step(content, offsets, row).1),
        rows_of(push_step(content, offsets, row).0, push_step(content, offsets, row).1)
            == rows_of(content, offsets).push(row),
{
    let (c2, o2) = push_step(content, offsets, row);
    let old_rows = rows_of(content, offsets);
    let new_rows = rows_of(c2, o2);
    assert forall|i: int| 0 <= i < new_rows.len() implies new_rows[i] == old_rows.push(row)[i] by {
        if i < old_rows.len() {
            assert(offsets[i] <= offsets[i + 1] <= content.len());
            assert(c2.subrange(offsets[i], offsets[i + 1]) =~= content.subrange(
                offsets[i],
                offsets[i + 1],
            ));
        } else {
            assert(c2.subrange(content.len() as int, c2.len() as int) =~= row);
        }
    }
    assert(new_rows =~= old_rows.push(row));
}

/// Pushing rows one at a time onto an empty builder gives the same buffers
/// as flattening them all at once.
pub proof fn lemma_pushes_match_bulk<T>(rows: Seq<Seq<T>>)
    ensures
        after_pushes(rows) == (flatten(rows), offsets_of(rows)),
    decreases rows.len(),
{
    if rows.len() == 0 {
        assert(rows.take(0) =~= rows);
        assert(offsets_of(rows) =~= seq![0int]);
    } else {
        let n = rows.len() as int;
        let prev = rows.drop_last();
        lemma_pushes_match_bulk(prev);
        assert(rows.take(n - 1) =~= prev);
        assert(rows.take(n) =~= rows);
        lemma_offsets_step(rows, n - 1);
    }
}

/// Cutting the flattened rows at their offsets gives back the rows.
pub proof fn lemma_round_trip<T>(rows: Seq<Seq<T>>)
    ensures
        rows_of(flatten(rows), offsets_of(rows)) == rows,
{
    let content = flatten(rows);
    let offs = offsets_of(rows);
    let back = rows_of(content, offs);
    assert forall|i: int| 0 <= i < rows.len() implies back[i] == rows[i] by {
        lemma_take_step(rows, i);
        lemma_prefix_len(rows, i + 1);
        assert(content.subrange(offs[i], offs[i + 1]) =~= rows[i]);
    }
    assert(back =~= rows);
}

/// The first `k` rows cut out of `content` make up its first `offsets[k]`
/// elements.
proof fn lemma_rows_prefix<T>(content: Seq<T>, offsets: Seq<int>, k: int)
    requires
        valid_layout(content.len(), offsets),
        0 <= k < offsets.len(),
    ensures
        flatten(rows_of(content, offsets).take(k)) == content.subrange(0, offsets[k]),
    decreases k,
{
    let rows = rows_of(content, offsets);
    if k == 0 {
        assert(rows.take(0) =~= Seq::<Seq<T>>::empty());
        assert(content.subrange(0, 0) =~= Seq::<T>::empty());
    } else {
        lemma_rows_prefix(content, offsets, k - 1);
        lemma_take_step(rows, k - 1);
        assert(offsets[k - 1] <= offsets[k] <= offsets.last());
        assert(content.subrange(0, offsets[k - 1]) + content.subrange(offsets[k - 1], offsets[k])
            =~= content.subrange(0, offsets[k]));
    }
}

/// The rows of a valid layout number one less than the offsets, and
/// concatenated in order they give back the content exactly.
pub proof fn lemma_rows_concat<T>(content: Seq<T>, offsets: Seq<int>)
    requires
        valid_layout(content.len(), offsets),
    ensures
        rows_of(content, offsets).len() + 1 == offsets.len(),
        flatten(rows_of(content, offsets)) == content,
{
    let rows = rows_of(content, offsets);
    let n = offsets.len() - 1;
    lemma_rows_prefix(content, offsets, n);
    assert(rows.take(n) =~= rows);
    assert(content.subrange(0, content.len() as int) =~= content);
}

/// No rows flatten to empty content with the single offset zero, and cut
/// out no rows.
pub proof fn lemma_no_rows<T>()
    ensures
        flatten(Seq::<Seq<T>>::empty()) == Seq::<T>::empty(),
        offsets_of(Seq::<Seq<T>>::empty()) == seq![0int],
        after_pushes(Seq::<Seq<T>>::empty()) == (Seq::<T>::empty(), seq![0int]),
        rows_of(Seq::<T>::empty(), seq![0int]).len() == 0,
{
    let rows = Seq::<Seq<T>>::empty();
    assert(rows.take(0) =~= rows);
    assert(offsets_of(rows) =~= seq![0int]);
}

/// Appending an empty row repeats the last offset as a new boundary, and
/// adds one row, empty, after the others.
pub proof fn lemma_push_empty_row<T>(content: Seq<T>, offsets: Seq<int>)
    requires
        valid_layout(content.len(), offsets),
    ensures
        push_step(content, offsets, Seq::empty()) == (content, offsets.push(offsets.last())),
        rows_of(content, offsets.push(offsets.last())) == rows_of(content, offsets).push(
            Seq::empty(),
        ),
        rows_of(content, offsets.push(offsets.last())).len() == rows_of(content, offsets).len()
            + 1,
{
    lemma_push_keeps_layout(content, offsets, Seq::empty());
    assert(content + Seq::<T>::empty() =~= content);
}

} // verus!
