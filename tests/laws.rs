use flatarray::{FlatArray, FlatVec};

fn nested() -> Vec<Vec<u32>> {
    vec![vec![3, 1], vec![], vec![4, 1, 5], vec![9], vec![]]
}

fn rows_of_vec(v: &FlatVec<u32>) -> Vec<Vec<u32>> {
    let mut out = Vec::new();
    let mut it = v.iter_arrays();
    while let Some(row) = it.next() {
        out.push(row.to_vec());
    }
    out
}

#[test]
fn round_trip_gives_back_the_rows() {
    let v = FlatVec::new(nested());
    assert_eq!(rows_of_vec(&v), nested());
    let a = FlatArray::new(nested());
    let mut back = Vec::new();
    let mut it = a.iter_arrays();
    while let Some(row) = it.next() {
        back.push(row.to_vec());
    }
    assert_eq!(back, nested());
}

#[test]
fn offsets_have_the_right_shape() {
    let v = FlatVec::new(nested());
    let offsets = v.get_offsets();
    assert_eq!(offsets, &[0, 2, 2, 5, 6, 6]);
    assert_eq!(offsets.len(), rows_of_vec(&v).len() + 1);
    assert_eq!(offsets[0], 0);
    assert_eq!(*offsets.last().unwrap(), v.get_content().len());
    assert!(offsets.windows(2).all(|w| w[0] <= w[1]));
}

#[test]
fn rows_concatenate_to_the_content() {
    let v = FlatVec::new(nested());
    let rows = rows_of_vec(&v);
    assert_eq!(rows.len(), 5);
    let joined: Vec<u32> = rows.concat();
    assert_eq!(joined.as_slice(), v.get_content());
    assert_eq!(v.get_content(), &[3, 1, 4, 1, 5, 9]);
}

#[test]
fn no_rows_gives_one_offset() {
    let v: FlatVec<u32> = FlatVec::new(vec![]);
    assert!(v.get_content().is_empty());
    assert_eq!(v.get_offsets(), &[0]);
    assert!(v.iter_arrays().next().is_none());
    let a: FlatArray<u32> = FlatArray::new(vec![]);
    assert!(a.get_content().is_empty());
    assert_eq!(a.get_offsets(), &[0]);
    assert!(a.iter_arrays().next().is_none());
}

#[test]
fn labels_scenario() {
    let input = vec![
        vec!["O", "O", "O", "B-MISC", "I-MISC", "I-MISC", "O"],
        vec!["B-PER", "I-PER", "O"],
    ];
    let v = FlatVec::new(input);
    assert_eq!(
        v.get_content(),
        &["O", "O", "O", "B-MISC", "I-MISC", "I-MISC", "O", "B-PER", "I-PER", "O"]
    );
    assert_eq!(v.get_offsets(), &[0, 7, 10]);
    let mut it = v.iter_arrays();
    assert_eq!(it.next().unwrap(), &v.get_content()[..7]);
    assert_eq!(it.next().unwrap(), &v.get_content()[7..]);
    assert!(it.next().is_none());
}
