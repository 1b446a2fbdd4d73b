use flatarray::{FlatBuilder, FlatStr, Iter, StrIter};

fn setup_flattened_str() -> (FlatStr, Vec<String>) {
    let input = vec![
        String::from("this is the first sentence"),
        String::from("this is the second sentence"),
        String::from("this is the third sentence"),
    ];
    let flat_str = FlatStr::from_strings(input.clone());
    (flat_str, input)
}

#[test]
fn test_flatvec_len() {
    let (flat_str, expected) = setup_flattened_str();
    let mut vectored: Vec<&[u8]> = Vec::new();
    let mut rows = Iter::new(&flat_str);
    while let Some(row) = rows.next() {
        vectored.push(row);
    }
    assert!(expected.len() == vectored.len())
}

#[test]
fn str_rows_read_back_as_strings() {
    let input = vec![String::from("héllo"), String::new(), String::from("wörld ✓")];
    let flat = FlatStr::from_strings(input.clone());
    assert_eq!(flat.get_offsets(), &[0, 6, 6, 16]);
    let mut strings: StrIter<'_> = flat.iter_strings();
    assert_eq!(strings.next(), Some("héllo"));
    assert_eq!(strings.next(), Some(""));
    assert_eq!(strings.next(), Some("wörld ✓"));
    assert_eq!(strings.next(), None);
}

#[test]
fn str_built_from_bytes() {
    let mut builder: FlatBuilder<u8> = FlatBuilder::default();
    builder.push(b"ab".to_vec());
    builder.push(b"c".to_vec());
    let flat = builder.build_flatstr();
    let mut strings = flat.iter_strings();
    assert_eq!(strings.next(), Some("ab"));
    assert_eq!(strings.next(), Some("c"));
    assert_eq!(strings.next(), None);
}
