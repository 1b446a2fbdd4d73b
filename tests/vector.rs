use std::borrow::Cow;

use flatarray::{FlatVec, FlattenedCollection, Iter};

fn build_vecs() -> Vec<Vec<&'static str>> {
    vec![
        vec!["O", "O", "O", "B-MISC", "I-MISC", "I-MISC", "O"],
        vec!["B-PER", "I-PER", "O"],
    ]
}

#[test]
#[allow(non_snake_case)]
fn vector_test_iter_TokenVec_len() {
    let vecs = build_vecs();
    let token_vecs = FlatVec::new(vecs);
    println!("{:?}", token_vecs.clone());
    let expected = 2;
    let mut actual = 0;
    let mut rows = token_vecs.iter_arrays();
    while rows.next().is_some() {
        actual += 1;
    }
    assert_eq!(expected, actual);
}

#[test]
#[allow(non_snake_case)]
fn vector_test_iter_TokenVec() {
    let vecs = build_vecs();
    let token_vecs = FlatVec::new(vecs);
    println!("{:?}", token_vecs.clone());
    let mut rows = token_vecs.iter_arrays();
    let mut i = 0;
    while let Some(actual) = rows.next() {
        if i == 0 {
            let expected = &[
                Cow::from("O"),
                Cow::from("O"),
                Cow::from("O"),
                Cow::from("B-MISC"),
                Cow::from("I-MISC"),
                Cow::from("I-MISC"),
                Cow::from("O"),
            ];
            assert_eq!(expected, actual);
        } else if i == 1 {
            let expected = &[Cow::from("B-PER"), Cow::from("I-PER"), Cow::from("O")];
            assert_eq!(expected, actual);
        } else if i > 1 {
            println!("{:?} {:?} {:?}", i, actual, token_vecs.clone());
            panic!("Only two iterations possible")
        }
        i += 1;
    }
}

#[test]
#[allow(non_snake_case)]
fn vector_test_new_TokenVec() {
    let vecs = build_vecs();
    let actual = FlatVec::new(vecs);
    let expected_tokens = vec![
        "O", "O", "O", "B-MISC", "I-MISC", "I-MISC", "O", "B-PER", "I-PER", "O",
    ];
    let expected_indices = vec![0, 7, 10];
    let expected = FlatVec::from_raw(expected_tokens, expected_indices).unwrap();
    assert_eq!(expected, actual);
}

#[test]
fn vector_from_raw_rejects_bad_offsets() {
    let content = vec!['a', 'b', 'c'];
    assert!(FlatVec::from_raw(content.clone(), vec![]).is_none());
    assert!(FlatVec::from_raw(content.clone(), vec![1, 3]).is_none());
    assert!(FlatVec::from_raw(content.clone(), vec![0, 4]).is_none());
    assert!(FlatVec::from_raw(content.clone(), vec![0, 3, 2, 3]).is_none());
    let ok = FlatVec::from_raw(content.clone(), vec![0, 3]).unwrap();
    assert_eq!(ok.get_content(), &['a', 'b', 'c']);
    let (c, o) = ok.into_raw();
    assert_eq!(c, content);
    assert_eq!(o, vec![0, 3]);
}

#[test]
fn vector_rows_can_be_changed_in_place() {
    let mut v = FlatVec::new(vec![vec![1i64], vec![2, 3], vec![]]);
    {
        let mut rows = v.iter_arrays_mut();
        let first = rows.next().unwrap();
        let second = rows.next().unwrap();
        first[0] = -1;
        second[1] = -3;
        assert!(rows.next().unwrap().is_empty());
        assert!(rows.next().is_none());
    }
    assert_eq!(v.get_content(), &[-1, 2, -3]);
    assert_eq!(v.get_offsets(), &[0, 1, 3, 3]);
}

#[test]
fn vector_capability_gives_ranges() {
    let mut v = FlatVec::new(vec![vec![1u8, 2, 3], vec![4, 5]]);
    assert_eq!(v.indices_len(), 3);
    assert!(!v.indices_empty());
    assert_eq!(v.get_indices(1), 3);
    assert_eq!(FlattenedCollection::get_content(&v, 1..4), &[2, 3, 4]);
    let part = v.get_mut_content(2..4);
    part[0] = 30;
    part[1] = 40;
    assert_eq!(v.get_content(), &[1, 2, 30, 40, 5]);
    let (offsets, whole) = v.parts_mut();
    assert_eq!(offsets, &[0, 3, 5]);
    whole[4] = 50;
    assert_eq!(v.get_content(), &[1, 2, 30, 40, 50]);
}

#[test]
fn vector_boxed_container_iterates_the_same() {
    let boxed = Box::new(FlatVec::new(vec![vec!["a"], vec![], vec!["b", "c"]]));
    let mut rows = Iter::new(&boxed);
    assert_eq!(rows.next(), Some(&["a"][..]));
    assert_eq!(rows.next(), Some(&[][..]));
    assert_eq!(rows.next(), Some(&["b", "c"][..]));
    assert_eq!(rows.next(), None);
    let again = rows.clone();
    let mut again = again;
    assert_eq!(again.next(), None);
}

#[test]
fn vector_clone_is_equal() {
    let v = FlatVec::new(vec![vec![String::from("x")], vec![String::from("y")]]);
    assert_eq!(v.clone(), v);
}
