use const_util::message::{build_msg, usize_str_len};

#[test]
fn numbers_are_rendered_in_decimal() {
    assert_eq!(build_msg("a ", 0, " b ", 7), "a 0 b 7");
    assert_eq!(build_msg("", 1203, "-", 10), "1203-10");
    assert_eq!(
        build_msg("max ", usize::MAX, " / ", usize::MAX),
        format!("max {} / {}", usize::MAX, usize::MAX)
    );
}

#[test]
fn widest_usize_rendering() {
    assert_eq!(usize_str_len(), usize::MAX.to_string().len());
}
