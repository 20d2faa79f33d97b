use const_util::slice::{
    into_range, slice_get, slice_get_mut, slice_index, slice_index_mut, slice_try_index,
    slice_try_index_mut, IndexError, IndexKind,
};
use std::ops::Bound;

#[test]
fn test() {
    let mut example: Vec<i32> = (0..20).collect();
    let mut example2: Vec<i32> = example.clone();
    let example = &mut *example;
    let example2 = &mut *example2;
    for i in 0..20 {
        for j in 0..20 {
            if i <= j {
                assert_eq!(slice_index_mut(example, i..j), &mut example2[i..j]);
            } else {
                assert!(slice_try_index_mut(example, i..j).is_err());
            }
            assert_eq!(slice_get_mut(example, i..j), example2.get_mut(i..j));
        }
    }
}

#[test]
fn every_pair_of_ends_matches_std() {
    let buffer: Vec<u32> = (0..20).collect();
    for i in 0..=20usize {
        for j in 0..=20usize {
            if i <= j {
                assert_eq!(slice_index(&buffer, i..j), &buffer[i..j]);
            } else {
                assert_eq!(
                    slice_try_index(&buffer, i..j),
                    Err(IndexError::OrderViolation { start: i, end: j })
                );
            }
            assert_eq!(slice_get(&buffer, i..j), buffer.get(i..j));
        }
    }
}

#[test]
fn every_form_of_a_range_selects_the_same_part() {
    let buffer: Vec<u8> = (10..20).collect();
    let expected: &[u8] = &buffer[2..5];
    assert_eq!(slice_get(&buffer, 2..5), Some(expected));
    assert_eq!(slice_get(&buffer, 2..=4), Some(expected));
    assert_eq!(slice_get(&buffer, (Bound::Included(2), Bound::Excluded(5))), Some(expected));
    assert_eq!(slice_get(&buffer, (Bound::Excluded(1), Bound::Included(4))), Some(expected));
    assert_eq!(slice_get(&buffer, IndexKind::RangeInc { start: 2, end: 4 }), Some(expected));
    assert_eq!(slice_index(&buffer, 2..=4), expected);
    assert_eq!(slice_index(&buffer, (Bound::Excluded(1), Bound::Excluded(5))), expected);

    let head: &[u8] = &buffer[..3];
    assert_eq!(slice_get(&buffer, ..3), Some(head));
    assert_eq!(slice_get(&buffer, ..=2), Some(head));
    assert_eq!(slice_get(&buffer, (Bound::Unbounded, Bound::Excluded(3))), Some(head));

    let tail: &[u8] = &buffer[7..];
    assert_eq!(slice_get(&buffer, 7..), Some(tail));
    assert_eq!(slice_get(&buffer, (Bound::Included(7), Bound::Unbounded)), Some(tail));
    assert_eq!(slice_index(&buffer, 7..), tail);
}

#[test]
fn full_range_gives_the_whole_buffer() {
    let buffer: Vec<u8> = vec![3, 1, 4, 1, 5];
    assert_eq!(slice_get(&buffer, ..), Some(&buffer[..]));
    assert_eq!(slice_index(&buffer, ..), &buffer[..]);
    let empty: Vec<u8> = Vec::new();
    assert_eq!(slice_get(&empty, ..), Some(&empty[..]));
    assert_eq!(slice_get(&empty, 0..0), Some(&empty[..]));
}

#[test]
fn start_after_end_is_reported_with_both_ends() {
    let buffer: Vec<u8> = vec![0; 8];
    assert_eq!(slice_get(&buffer, 5..3), None);
    let err = slice_try_index(&buffer, 5..3).unwrap_err();
    assert_eq!(err, IndexError::OrderViolation { start: 5, end: 3 });
    assert_eq!(err.message(), "slice index starts at 5 but ends at 3");
    // the order is checked before the length
    let err = slice_try_index(&buffer, 12..10).unwrap_err();
    assert_eq!(err.message(), "slice index starts at 12 but ends at 10");
}

#[test]
fn end_past_length_is_reported_with_end_and_length() {
    let buffer: Vec<u8> = vec![0; 5];
    assert_eq!(slice_get(&buffer, 2..9), None);
    assert_eq!(slice_get(&buffer, ..6), None);
    assert_eq!(slice_get(&buffer, 6..), None);
    let err = slice_try_index(&buffer, 2..9).unwrap_err();
    assert_eq!(err, IndexError::EndOutOfRange { end: 9, len: 5 });
    assert_eq!(err.message(), "range end index 9 is out of range for slice of length 5");
    let err = slice_try_index(&buffer, ..=5).unwrap_err();
    assert_eq!(err.message(), "range end index 6 is out of range for slice of length 5");
}

#[test]
fn inclusive_end_at_max_overflows() {
    let buffer: Vec<u8> = vec![0; 5];
    assert_eq!(into_range(0..=usize::MAX, 5), None);
    assert_eq!(into_range(..=usize::MAX, 5), None);
    assert_eq!(slice_get(&buffer, 0..=usize::MAX), None);
    assert_eq!(slice_get(&buffer, ..=usize::MAX), None);
    assert_eq!(slice_get(&buffer, (Bound::Included(0), Bound::Included(usize::MAX))), None);
    assert_eq!(slice_get(&buffer, (Bound::Excluded(usize::MAX), Bound::Unbounded)), None);
    let err = slice_try_index(&buffer, 3..=usize::MAX).unwrap_err();
    assert_eq!(err, IndexError::Overflow);
    assert_eq!(err.message(), "attempted to index slice after maximum allowed length");
}

#[test]
fn normalization_fills_open_ends_from_the_length() {
    assert_eq!(into_range(2..7, 4), Some(2..7));
    assert_eq!(into_range(2..=7, 4), Some(2..8));
    assert_eq!(into_range(.., 4), Some(0..4));
    assert_eq!(into_range(3.., 4), Some(3..4));
    assert_eq!(into_range(..9, 4), Some(0..9));
    assert_eq!(into_range(..=9, 4), Some(0..10));
    assert_eq!(into_range((Bound::Excluded(2), Bound::Unbounded), 4), Some(3..4));
    assert_eq!(into_range((Bound::Unbounded, Bound::Included(1)), 4), Some(0..2));
    // no check against the length or the order here
    assert_eq!(into_range(6..1, 4), Some(6..1));
}

#[test]
fn mutable_view_writes_through() {
    let mut buffer: Vec<u8> = vec![0, 1, 2, 3, 4, 5];
    {
        let view = slice_index_mut(&mut buffer, 2..=3);
        view[0] = 20;
        view[1] = 30;
    }
    assert_eq!(buffer, vec![0, 1, 20, 30, 4, 5]);
    if let Some(view) = slice_get_mut(&mut buffer, 4..) {
        view[1] = 50;
    }
    assert_eq!(buffer, vec![0, 1, 20, 30, 4, 50]);
    assert_eq!(slice_get_mut(&mut buffer, 4..2), None);
    assert_eq!(
        slice_try_index_mut(&mut buffer, 1..7).unwrap_err(),
        IndexError::EndOutOfRange { end: 7, len: 6 }
    );
}
