use const_util::concat::{
    concat_bytes, concat_bytes2, concat_bytes_with_upper_bound, concat_len, concat_strs,
    concat_strs2,
};

#[test]
fn bytes_are_joined_in_order() {
    let a: &[u8] = &[1, 2, 3];
    let b: &[u8] = &[];
    let c: &[u8] = &[4, 5];
    let sources: [&[u8]; 3] = [a, b, c];
    assert_eq!(concat_len(&sources), Some(5));
    assert_eq!(concat_bytes(&sources), vec![1, 2, 3, 4, 5]);
}

#[test]
fn no_sources_give_an_empty_buffer() {
    let sources: [&[u8]; 0] = [];
    assert_eq!(concat_len(&sources), Some(0));
    assert_eq!(concat_bytes(&sources), Vec::<u8>::new());
    let strs: [&str; 0] = [];
    assert_eq!(concat_strs(&strs), "");
}

#[test]
fn a_generous_upper_bound_is_trimmed() {
    let a: &[u8] = b"abc";
    let b: &[u8] = b"de";
    let sources: [&[u8]; 2] = [a, b];
    assert_eq!(concat_bytes_with_upper_bound(&sources, 64), b"abcde".to_vec());
    assert_eq!(concat_bytes_with_upper_bound(&sources, 5), b"abcde".to_vec());
}

#[test]
fn two_byte_slices() {
    assert_eq!(concat_bytes2(b"AB", b"CDE"), b"ABCDE".to_vec());
    assert_eq!(concat_bytes2(b"", b"x"), b"x".to_vec());
}

#[test]
fn strings_are_joined_in_order() {
    assert_eq!(concat_strs(&["ab", "cd"]), "abcd");
    assert_eq!(concat_strs(&["Odd", "Even", "Schmeven"]), "OddEvenSchmeven");
    assert_eq!(concat_strs(&["h\u{e9}", "", "\u{1f980} w\u{f6}rld"]), "h\u{e9}\u{1f980} w\u{f6}rld");
}

#[test]
fn two_strings() {
    assert_eq!(concat_strs2("ab", "cd"), "abcd");
    assert_eq!(concat_strs2("", "\u{df}"), "\u{df}");
}
