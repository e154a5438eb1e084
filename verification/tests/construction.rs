use array2::{Array2, Array2Error};

#[test]
fn new_fills_every_cell() {
    let a = Array2::new(3, 2, 7u32);
    assert_eq!(a.width(), 3);
    assert_eq!(a.height(), 2);
    for r in 0..2 {
        for c in 0..3 {
            assert_eq!(a.get(c, r), Some(&7));
        }
    }
    assert_eq!(a.elements_row_major(), &vec![7, 7, 7, 7, 7, 7]);
}

#[test]
fn new_fills_with_clones_of_a_value_that_is_not_copy() {
    let a = Array2::new(2, 2, String::from("x"));
    assert_eq!(a.elements_row_major().len(), 4);
    for r in 0..2 {
        for c in 0..2 {
            assert_eq!(a.get(c, r).map(String::as_str), Some("x"));
        }
    }
}

#[test]
fn new_with_no_columns_or_no_rows_is_empty() {
    let a = Array2::new(0, 5, 1u8);
    assert_eq!((a.width(), a.height()), (0, 5));
    assert!(a.elements_row_major().is_empty());
    assert_eq!(a.get(0, 0), None);

    let b = Array2::new(5, 0, 1u8);
    assert_eq!((b.width(), b.height()), (5, 0));
    assert!(b.elements_row_major().is_empty());
    assert_eq!(b.get(0, 0), None);
}

#[test]
fn from_row_major_adopts_a_sequence_of_the_right_length() {
    let a = Array2::from_row_major(2, 3, vec![1, 2, 3, 4, 5, 6]).unwrap();
    assert_eq!(a.width(), 2);
    assert_eq!(a.height(), 3);
    assert_eq!(a.elements_row_major(), &vec![1, 2, 3, 4, 5, 6]);
    assert_eq!(a.get(0, 0), Some(&1));
    assert_eq!(a.get(1, 0), Some(&2));
    assert_eq!(a.get(0, 1), Some(&3));
    assert_eq!(a.get(1, 2), Some(&6));
}

#[test]
fn from_row_major_rejects_a_short_sequence() {
    let res = Array2::from_row_major(2, 3, vec![1, 2, 3, 4, 5]);
    assert_eq!(res, Err(Array2Error::DimensionMismatch { expected: 6, actual: 5 }));
}

#[test]
fn from_row_major_rejects_a_long_sequence() {
    let res = Array2::from_row_major(2, 3, vec![0u8; 7]);
    assert_eq!(res, Err(Array2Error::DimensionMismatch { expected: 6, actual: 7 }));
}

#[test]
fn from_row_major_rejects_values_for_an_empty_grid() {
    let res = Array2::from_row_major(0, 3, vec![1]);
    assert_eq!(res, Err(Array2Error::DimensionMismatch { expected: 0, actual: 1 }));
}

#[test]
fn from_row_major_rejects_an_empty_sequence_for_a_grid_with_cells() {
    let res = Array2::from_row_major(1, 1, Vec::<i32>::new());
    assert_eq!(res, Err(Array2Error::DimensionMismatch { expected: 1, actual: 0 }));
}

#[test]
fn from_row_major_accepts_an_empty_sequence_for_an_empty_grid() {
    let a = Array2::from_row_major(0, 0, Vec::<i32>::new()).unwrap();
    assert_eq!((a.width(), a.height()), (0, 0));
    let b = Array2::from_row_major(4, 0, Vec::<i32>::new()).unwrap();
    assert_eq!((b.width(), b.height()), (4, 0));
    let c = Array2::from_row_major(0, 4, Vec::<i32>::new()).unwrap();
    assert_eq!((c.width(), c.height()), (0, 4));
}

#[test]
fn from_row_major_reports_a_product_beyond_usize() {
    let res = Array2::from_row_major(usize::MAX, 2, vec![1u8, 2, 3]);
    assert_eq!(
        res,
        Err(Array2Error::DimensionMismatch { expected: (usize::MAX as u128) * 2, actual: 3 })
    );
    let res = Array2::from_row_major(usize::MAX, usize::MAX, Vec::<u8>::new());
    assert_eq!(
        res,
        Err(Array2Error::DimensionMismatch {
            expected: (usize::MAX as u128) * (usize::MAX as u128),
            actual: 0,
        })
    );
}

#[test]
fn from_row_major_fails_exactly_on_a_length_other_than_the_product() {
    for w in 0..5usize {
        for h in 0..5usize {
            for len in 0..30usize {
                let res = Array2::from_row_major(w, h, vec![0u8; len]);
                if len == w * h {
                    let a = res.unwrap();
                    assert_eq!((a.width(), a.height()), (w, h));
                    assert_eq!(a.elements_row_major().len(), len);
                } else {
                    assert_eq!(
                        res,
                        Err(Array2Error::DimensionMismatch {
                            expected: (w * h) as u128,
                            actual: len,
                        })
                    );
                }
            }
        }
    }
}

#[test]
fn clone_keeps_dimensions_and_values() {
    let a = Array2::from_row_major(3, 2, vec![1, 2, 3, 4, 5, 6]).unwrap();
    let mut b = a.clone();
    assert_eq!(a, b);
    *b.get_mut(0, 0).unwrap() = 9;
    assert_eq!(a.get(0, 0), Some(&1));
    assert_eq!(b.get(0, 0), Some(&9));
    assert_ne!(a, b);
}

#[test]
fn arrays_of_the_same_values_and_other_dimensions_differ() {
    let a = Array2::from_row_major(3, 2, vec![1, 2, 3, 4, 5, 6]).unwrap();
    let b = Array2::from_row_major(2, 3, vec![1, 2, 3, 4, 5, 6]).unwrap();
    assert_ne!(a, b);
}
