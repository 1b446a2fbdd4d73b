use flatarray::{FlatArray, FlatBuilder, FlatVec};

fn rows() -> Vec<Vec<&'static str>> {
    vec![vec!["a", "b"], vec![], vec!["c"], vec!["d", "e", "f"]]
}

#[test]
fn builder_push_matches_bulk_construction() {
    let mut builder = FlatBuilder::default();
    for row in rows() {
        builder.push(row);
    }
    assert_eq!(builder.clone().build_flatvec(), FlatVec::new(rows()));
    assert_eq!(builder.build_flatarray(), FlatArray::new(rows()));
}

#[test]
fn builder_push_variants_agree() {
    let mut exact = FlatBuilder::new();
    let mut owned = FlatBuilder::new();
    let mut taken = FlatBuilder::new();
    for row in rows() {
        exact.push_exact_sized(row.clone());
        owned.push_owned(&row);
        taken.push_take(row);
    }
    let expected = FlatVec::new(rows());
    assert_eq!(exact.build_flatvec(), expected);
    assert_eq!(owned.build_flatvec(), expected);
    assert_eq!(taken.build_flatvec(), expected);
}

#[test]
fn builder_empty_row_adds_a_boundary() {
    let mut builder: FlatBuilder<u8> = FlatBuilder::default();
    builder.push(vec![7, 8]);
    let without = builder.clone().build_flatvec();
    builder.push(vec![]);
    let with = builder.build_flatvec();
    assert_eq!(without.get_offsets(), &[0, 2]);
    assert_eq!(with.get_offsets(), &[0, 2, 2]);
    let mut count = 0;
    let mut it = with.iter_arrays();
    while it.next().is_some() {
        count += 1;
    }
    assert_eq!(count, 2);
}

#[test]
fn builder_without_rows() {
    let builder: FlatBuilder<u64> = FlatBuilder::default();
    let v = builder.build_flatvec();
    assert!(v.get_content().is_empty());
    assert_eq!(v.get_offsets(), &[0]);
    assert!(v.iter_arrays().next().is_none());
}
