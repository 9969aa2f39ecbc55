use validity_bitmap::{Column, ValidityBitmap, ValidityError};

/// Twenty rows with rows 2, 7 and 15 null, in a buffer of four bytes.
fn twenty_rows() -> Column {
    let bitmap = ValidityBitmap::from_bytes(vec![0x7B, 0x7F, 0x0F, 0x00]).unwrap();
    Column::new(Some(bitmap), 20).unwrap()
}

fn null_rows(column: &Column) -> Vec<usize> {
    let mut rows = Vec::new();
    for row in 0..column.len() {
        if column.is_null(row).unwrap() {
            rows.push(row);
        }
    }
    rows
}

#[test]
fn unsliced_column_reports_its_nulls() {
    let column = twenty_rows();
    assert_eq!(column.len(), 20);
    assert_eq!(column.offset(), 0);
    assert_eq!(null_rows(&column), vec![2, 7, 15]);
}

#[test]
fn unsliced_bit_len_covers_the_rows_and_is_the_buffer_capacity() {
    let column = twenty_rows();
    let bit_len = column.bit_len().unwrap();
    assert!(bit_len >= column.len());
    assert_eq!(bit_len, 32);
    assert_eq!(column.validity().unwrap().bit_len(), 4 * 8);
}

#[test]
fn slice_after_dropping_nine_rows_finds_the_null_at_six() {
    let origin = twenty_rows();
    let slice = origin.slice(9, 11).unwrap();
    assert_eq!(slice.len(), 11);
    assert_eq!(slice.offset(), 9);
    assert_eq!(null_rows(&slice), vec![6]);
    assert_eq!(slice.bit_len(), Some(32));
    assert_eq!(slice.bit_len(), origin.bit_len());
}

#[test]
fn slice_keeps_the_bit_len_of_a_byte_rounded_buffer() {
    let mut flags = vec![true; 20];
    flags[2] = false;
    flags[7] = false;
    flags[15] = false;
    let origin = Column::new(Some(ValidityBitmap::from_flags(&flags).unwrap()), 20).unwrap();
    let slice = origin.slice(9, 11).unwrap();
    assert_eq!(origin.bit_len(), Some(24));
    assert_eq!(slice.bit_len(), Some(24));
    assert_eq!(null_rows(&slice), vec![6]);
}

#[test]
fn slice_shows_the_rows_asked_for_and_leaves_the_origin_alone() {
    let origin = twenty_rows();
    for offset in 0..=20 {
        for len in 0..=(20 - offset) {
            let slice = origin.slice(offset, len).unwrap();
            assert_eq!(slice.len(), len);
            assert_eq!(slice.bit_len(), Some(32));
        }
    }
    assert_eq!(origin.len(), 20);
    assert_eq!(origin.offset(), 0);
    assert_eq!(null_rows(&origin), vec![2, 7, 15]);
}

#[test]
fn slice_rows_are_the_origin_rows_at_offset_plus_row() {
    let origin = twenty_rows();
    for offset in 0..=20 {
        for len in 0..=(20 - offset) {
            let slice = origin.slice(offset, len).unwrap();
            for row in 0..len {
                assert_eq!(slice.is_null(row), origin.is_null(offset + row));
            }
        }
    }
}

#[test]
fn slice_of_slice_adds_the_offsets() {
    let origin = twenty_rows();
    let twice = origin.slice(1, 18).unwrap().slice(5, 12).unwrap();
    let once = origin.slice(6, 12).unwrap();
    assert_eq!(twice.offset(), 6);
    assert_eq!(twice.offset(), once.offset());
    assert_eq!(twice.len(), once.len());
    assert_eq!(twice.bit_len(), once.bit_len());
    assert_eq!(null_rows(&twice), vec![1, 9]);
    for row in 0..12 {
        assert_eq!(twice.is_null(row), once.is_null(row));
    }
}

#[test]
fn slice_of_slice_matches_for_every_valid_range() {
    let origin = twenty_rows();
    for a in 0..=20 {
        let la = 20 - a;
        let outer = origin.slice(a, la).unwrap();
        for b in 0..=la {
            let lb = la - b;
            let twice = outer.slice(b, lb).unwrap();
            let once = origin.slice(a + b, lb).unwrap();
            assert_eq!(twice.offset(), once.offset());
            assert_eq!(twice.len(), once.len());
            assert_eq!(null_rows(&twice), null_rows(&once));
        }
    }
}

#[test]
fn column_without_bitmap_has_no_nulls() {
    let column = Column::new(None, 5).unwrap();
    assert_eq!(column.len(), 5);
    assert!(column.validity().is_none());
    assert_eq!(column.bit_len(), None);
    for row in 0..5 {
        assert_eq!(column.is_null(row), Ok(false));
    }
    let slice = column.slice(2, 3).unwrap();
    assert_eq!(slice.bit_len(), None);
    for row in 0..3 {
        assert_eq!(slice.is_null(row), Ok(false));
    }
}

#[test]
fn is_null_outside_the_rows_is_out_of_range() {
    let origin = twenty_rows();
    assert_eq!(origin.is_null(19), Ok(false));
    assert_eq!(origin.is_null(20), Err(ValidityError::OutOfRange));
    // Bits 20..32 exist in the buffer but are no rows of the column.
    assert_eq!(origin.is_null(31), Err(ValidityError::OutOfRange));
    let slice = origin.slice(9, 11).unwrap();
    assert_eq!(slice.is_null(10), Ok(false));
    assert_eq!(slice.is_null(11), Err(ValidityError::OutOfRange));
    assert_eq!(slice.is_null(usize::MAX), Err(ValidityError::OutOfRange));
    let bare = Column::new(None, 3).unwrap();
    assert_eq!(bare.is_null(3), Err(ValidityError::OutOfRange));
}

#[test]
fn slice_past_the_rows_is_out_of_range() {
    let origin = twenty_rows();
    assert_eq!(origin.slice(9, 12).unwrap_err(), ValidityError::OutOfRange);
    assert_eq!(origin.slice(21, 0).unwrap_err(), ValidityError::OutOfRange);
    assert_eq!(origin.slice(1, usize::MAX).unwrap_err(), ValidityError::OutOfRange);
    assert_eq!(origin.slice(usize::MAX, usize::MAX).unwrap_err(), ValidityError::OutOfRange);
    assert!(origin.slice(20, 0).is_ok());
    let slice = origin.slice(9, 11).unwrap();
    // The origin has rows beyond the slice, yet the slice does not.
    assert_eq!(slice.slice(0, 12).unwrap_err(), ValidityError::OutOfRange);
}

#[test]
fn column_longer_than_its_buffer_is_malformed() {
    let bitmap = ValidityBitmap::from_bytes(vec![0xFF, 0xFF]).unwrap();
    assert_eq!(Column::new(Some(bitmap), 17).unwrap_err(), ValidityError::MalformedInput);
    let bitmap = ValidityBitmap::from_bytes(vec![0xFF, 0xFF]).unwrap();
    assert!(Column::new(Some(bitmap), 16).is_ok());
    let empty = ValidityBitmap::from_bytes(Vec::new()).unwrap();
    assert_eq!(Column::new(Some(empty), 1).unwrap_err(), ValidityError::MalformedInput);
}

#[test]
fn empty_column_has_no_rows() {
    let empty = Column::new(Some(ValidityBitmap::from_bytes(Vec::new()).unwrap()), 0).unwrap();
    assert_eq!(empty.len(), 0);
    assert_eq!(empty.bit_len(), Some(0));
    assert_eq!(empty.is_null(0), Err(ValidityError::OutOfRange));
    assert!(empty.slice(0, 0).is_ok());
}

#[test]
fn clone_shows_the_same_window() {
    let slice = twenty_rows().slice(9, 11).unwrap();
    let copy = slice.clone();
    assert_eq!(copy.offset(), 9);
    assert_eq!(copy.len(), 11);
    assert_eq!(copy.bit_len(), Some(32));
    assert_eq!(null_rows(&copy), vec![6]);
}
