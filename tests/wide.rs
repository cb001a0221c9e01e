use param_strings::wide::{u16strlcpy, WideCopyError};

#[test]
fn u16strlcpy_short_source_is_copied_whole() {
    let mut dest = [7i16; 8];
    assert_eq!(u16strlcpy(&mut dest, "gain"), Ok(()));
    assert_eq!(dest, [103, 97, 105, 110, 0, 7, 7, 7]);
}

#[test]
fn u16strlcpy_long_source_is_truncated() {
    let mut dest = [7i16; 4];
    assert_eq!(u16strlcpy(&mut dest, "bypass"), Ok(()));
    assert_eq!(dest, [98, 121, 112, 0]);
}

#[test]
fn u16strlcpy_into_empty_buffer_is_no_op() {
    let mut dest: [i16; 0] = [];
    assert_eq!(u16strlcpy(&mut dest, "gain"), Ok(()));
    assert_eq!(u16strlcpy(&mut dest, "a\u{0}b"), Ok(()));
}

#[test]
fn u16strlcpy_into_single_slot_writes_terminator() {
    let mut dest = [7i16; 1];
    assert_eq!(u16strlcpy(&mut dest, "gain"), Ok(()));
    assert_eq!(dest, [0]);
}

#[test]
fn u16strlcpy_encodes_utf16() {
    let mut dest = [7i16; 6];
    assert_eq!(u16strlcpy(&mut dest, "\u{e9}\u{1f3b9}"), Ok(()));
    assert_eq!(dest, [0xe9, -10180, -8263, 0, 7, 7]);
}

#[test]
fn u16strlcpy_may_split_surrogate_pair() {
    let mut dest = [7i16; 3];
    assert_eq!(u16strlcpy(&mut dest, "\u{e9}\u{1f3b9}"), Ok(()));
    assert_eq!(dest, [0xe9, -10180, 0]);
}

#[test]
fn u16strlcpy_interior_nul_leaves_buffer_unchanged() {
    let mut dest = [7i16; 8];
    assert_eq!(u16strlcpy(&mut dest, "a\u{0}b"), Err(WideCopyError::InteriorNul));
    assert_eq!(dest, [7; 8]);
}

#[test]
fn u16strlcpy_trailing_nul_is_dropped() {
    let mut dest = [7i16; 8];
    assert_eq!(u16strlcpy(&mut dest, "ab\u{0}"), Ok(()));
    assert_eq!(dest, [97, 98, 0, 7, 7, 7, 7, 7]);
}

#[test]
fn u16strlcpy_never_writes_past_buffer() {
    let mut region = [5i16; 10];
    assert_eq!(u16strlcpy(&mut region[..4], "parameter"), Ok(()));
    assert_eq!(&region[..4], &[112, 97, 114, 0]);
    assert!(region[4..].iter().all(|&c| c == 5));
}

#[test]
fn u16strlcpy_twice_gives_same_contents() {
    let mut first = [9i16; 6];
    assert_eq!(u16strlcpy(&mut first, "mix"), Ok(()));
    let mut second = first;
    assert_eq!(u16strlcpy(&mut second, "mix"), Ok(()));
    assert_eq!(first, second);
}
