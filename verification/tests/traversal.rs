use array2::Array2;

fn sample() -> Array2<i32> {
    Array2::from_row_major(2, 3, vec![1, 2, 3, 4, 5, 6]).unwrap()
}

#[test]
fn iter_row_major_goes_row_by_row() {
    let a = sample();
    assert_eq!(
        a.iter_row_major(),
        vec![(0, 0, &1), (1, 0, &2), (0, 1, &3), (1, 1, &4), (0, 2, &5), (1, 2, &6)]
    );
}

#[test]
fn iter_col_major_goes_column_by_column() {
    let a = sample();
    assert_eq!(
        a.iter_col_major(),
        vec![(0, 0, &1), (0, 1, &3), (0, 2, &5), (1, 0, &2), (1, 1, &4), (1, 2, &6)]
    );
}

#[test]
fn iter_row_major_follows_the_backing_sequence() {
    let a = Array2::from_row_major(4, 3, (0..12).collect::<Vec<u32>>()).unwrap();
    let values: Vec<u32> = a.iter_row_major().into_iter().map(|(_, _, v)| *v).collect();
    assert_eq!(&values, a.elements_row_major());
}

#[test]
fn iter_col_major_strides_by_the_width() {
    let a = Array2::from_row_major(4, 3, (0..12).collect::<Vec<u32>>()).unwrap();
    let values: Vec<u32> = a.iter_col_major().into_iter().map(|(_, _, v)| *v).collect();
    assert_eq!(values, vec![0, 4, 8, 1, 5, 9, 2, 6, 10, 3, 7, 11]);
}

#[test]
fn both_traversals_hand_out_the_value_at_the_coordinates() {
    let a = Array2::from_row_major(3, 4, (100..112).collect::<Vec<u32>>()).unwrap();
    for (c, r, v) in a.iter_row_major() {
        assert_eq!(a.get(c, r), Some(v));
    }
    for (c, r, v) in a.iter_col_major() {
        assert_eq!(a.get(c, r), Some(v));
    }
}

#[test]
fn both_traversals_hand_out_the_same_triples() {
    for w in 0..5usize {
        for h in 0..5usize {
            let values: Vec<usize> = (0..w * h).map(|k| k % 3).collect();
            let a = Array2::from_row_major(w, h, values).unwrap();
            let mut by_row = a.iter_row_major();
            let mut by_col = a.iter_col_major();
            assert_eq!(by_row.len(), w * h);
            assert_eq!(by_col.len(), w * h);
            by_row.sort();
            by_col.sort();
            assert_eq!(by_row, by_col);
        }
    }
}

#[test]
fn each_traversal_visits_every_cell_once() {
    let a = Array2::from_row_major(3, 2, vec![0u8; 6]).unwrap();
    for cells in [a.iter_row_major(), a.iter_col_major()] {
        let mut coordinates: Vec<(usize, usize)> = cells.iter().map(|t| (t.0, t.1)).collect();
        coordinates.sort();
        assert_eq!(coordinates, vec![(0, 0), (0, 1), (1, 0), (1, 1), (2, 0), (2, 1)]);
    }
}

#[test]
fn traversals_of_an_empty_array_hand_out_nothing() {
    for (w, h) in [(0usize, 0usize), (0, 3), (3, 0)] {
        let a = Array2::from_row_major(w, h, Vec::<i32>::new()).unwrap();
        assert!(a.iter_row_major().is_empty());
        assert!(a.iter_col_major().is_empty());
    }
}

#[test]
fn traversals_of_a_single_row_or_column_agree() {
    let row = Array2::from_row_major(4, 1, vec![1, 2, 3, 4]).unwrap();
    assert_eq!(row.iter_row_major(), row.iter_col_major());
    assert_eq!(row.iter_row_major(), vec![(0, 0, &1), (1, 0, &2), (2, 0, &3), (3, 0, &4)]);
    let col = Array2::from_row_major(1, 4, vec![1, 2, 3, 4]).unwrap();
    assert_eq!(col.iter_row_major(), col.iter_col_major());
    assert_eq!(col.iter_col_major(), vec![(0, 0, &1), (0, 1, &2), (0, 2, &3), (0, 3, &4)]);
}

#[test]
fn a_traversal_can_be_started_again() {
    let a = sample();
    assert_eq!(a.iter_row_major(), a.iter_row_major());
    assert_eq!(a.iter_col_major(), a.iter_col_major());
    assert_eq!(a, sample());
}
