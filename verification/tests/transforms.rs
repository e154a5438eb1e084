use array2::Array2;

fn sample() -> Array2<i32> {
    Array2::from_row_major(2, 3, vec![1, 2, 3, 4, 5, 6]).unwrap()
}

fn grid(width: usize, height: usize) -> Array2<usize> {
    Array2::from_row_major(width, height, (0..width * height).collect()).unwrap()
}

fn rows<T: Clone>(a: &Array2<T>) -> Vec<Vec<T>> {
    let mut out = Vec::new();
    for r in 0..a.height() {
        let mut row = Vec::new();
        for c in 0..a.width() {
            row.push(a.get(c, r).unwrap().clone());
        }
        out.push(row);
    }
    out
}

#[test]
fn rotate_90_of_a_two_by_three_array() {
    for flag in [true, false] {
        let mut a = sample();
        a.rotate_90(flag);
        assert_eq!(a.width(), 3);
        assert_eq!(a.height(), 2);
        assert_eq!(rows(&a), vec![vec![5, 3, 1], vec![6, 4, 2]]);
        assert_eq!(a.elements_row_major(), &vec![5, 3, 1, 6, 4, 2]);
    }
}

#[test]
fn flip_horizontal_of_a_two_by_three_array() {
    for flag in [true, false] {
        let mut a = sample();
        a.flip_horizontal(flag);
        assert_eq!(a.width(), 2);
        assert_eq!(a.height(), 3);
        assert_eq!(rows(&a), vec![vec![2, 1], vec![4, 3], vec![6, 5]]);
    }
}

#[test]
fn flip_vertical_of_a_two_by_three_array() {
    for flag in [true, false] {
        let mut a = sample();
        a.flip_vertical(flag);
        assert_eq!((a.width(), a.height()), (2, 3));
        assert_eq!(rows(&a), vec![vec![5, 6], vec![3, 4], vec![1, 2]]);
    }
}

#[test]
fn rotate_180_of_a_two_by_three_array() {
    for flag in [true, false] {
        let mut a = sample();
        a.rotate_180(flag);
        assert_eq!((a.width(), a.height()), (2, 3));
        assert_eq!(rows(&a), vec![vec![6, 5], vec![4, 3], vec![2, 1]]);
    }
}

#[test]
fn rotate_270_of_a_two_by_three_array() {
    for flag in [true, false] {
        let mut a = sample();
        a.rotate_270(flag);
        assert_eq!((a.width(), a.height()), (3, 2));
        assert_eq!(rows(&a), vec![vec![2, 4, 6], vec![1, 3, 5]]);
    }
}

#[test]
fn transpose_of_a_two_by_three_array() {
    for flag in [true, false] {
        let mut a = sample();
        a.transpose(flag);
        assert_eq!((a.width(), a.height()), (3, 2));
        assert_eq!(rows(&a), vec![vec![1, 3, 5], vec![2, 4, 6]]);
    }
}

#[test]
fn flip_horizontal_moves_each_value_to_the_mirrored_column() {
    let a = grid(4, 3);
    let mut b = a.clone();
    b.flip_horizontal(true);
    for (i, j, v) in a.iter_row_major() {
        assert_eq!(b.get(4 - i - 1, j), Some(v));
    }
}

#[test]
fn flip_vertical_moves_each_value_to_the_mirrored_row() {
    let a = grid(4, 3);
    let mut b = a.clone();
    b.flip_vertical(false);
    for (i, j, v) in a.iter_row_major() {
        assert_eq!(b.get(i, 3 - j - 1), Some(v));
    }
}

#[test]
fn rotate_90_moves_each_value_by_the_quarter_turn_rule() {
    let a = grid(4, 3);
    let mut b = a.clone();
    b.rotate_90(true);
    assert_eq!((b.width(), b.height()), (3, 4));
    for (i, j, v) in a.iter_col_major() {
        assert_eq!(b.get(3 - j - 1, i), Some(v));
    }
}

#[test]
fn rotate_180_moves_each_value_by_the_half_turn_rule() {
    let a = grid(4, 3);
    let mut b = a.clone();
    b.rotate_180(false);
    assert_eq!((b.width(), b.height()), (4, 3));
    for (i, j, v) in a.iter_row_major() {
        assert_eq!(b.get(4 - i - 1, 3 - j - 1), Some(v));
    }
}

#[test]
fn rotate_270_moves_each_value_by_the_three_quarter_turn_rule() {
    let a = grid(4, 3);
    let mut b = a.clone();
    b.rotate_270(true);
    assert_eq!((b.width(), b.height()), (3, 4));
    for (i, j, v) in a.iter_col_major() {
        assert_eq!(b.get(j, 4 - i - 1), Some(v));
    }
}

#[test]
fn transpose_exchanges_column_and_row() {
    let a = grid(4, 3);
    let mut b = a.clone();
    b.transpose(false);
    assert_eq!((b.width(), b.height()), (3, 4));
    for (i, j, v) in a.iter_row_major() {
        assert_eq!(b.get(j, i), Some(v));
    }
}

#[test]
fn transforms_of_a_single_cell_change_nothing() {
    for flag in [true, false] {
        let one = Array2::from_row_major(1, 1, vec![42]).unwrap();
        let mut a = one.clone();
        a.flip_horizontal(flag);
        assert_eq!(a, one);
        a.flip_vertical(flag);
        assert_eq!(a, one);
        a.rotate_90(flag);
        assert_eq!(a, one);
        a.rotate_180(flag);
        assert_eq!(a, one);
        a.rotate_270(flag);
        assert_eq!(a, one);
        a.transpose(flag);
        assert_eq!(a, one);
    }
}

#[test]
fn transforms_of_a_single_row() {
    for flag in [true, false] {
        let row = Array2::from_row_major(3, 1, vec![1, 2, 3]).unwrap();

        let mut a = row.clone();
        a.flip_horizontal(flag);
        assert_eq!(a, Array2::from_row_major(3, 1, vec![3, 2, 1]).unwrap());

        let mut a = row.clone();
        a.flip_vertical(flag);
        assert_eq!(a, row);

        let mut a = row.clone();
        a.rotate_90(flag);
        assert_eq!(a, Array2::from_row_major(1, 3, vec![1, 2, 3]).unwrap());

        let mut a = row.clone();
        a.rotate_180(flag);
        assert_eq!(a, Array2::from_row_major(3, 1, vec![3, 2, 1]).unwrap());

        let mut a = row.clone();
        a.rotate_270(flag);
        assert_eq!(a, Array2::from_row_major(1, 3, vec![3, 2, 1]).unwrap());

        let mut a = row.clone();
        a.transpose(flag);
        assert_eq!(a, Array2::from_row_major(1, 3, vec![1, 2, 3]).unwrap());
    }
}

#[test]
fn transforms_of_an_empty_array_keep_it_empty() {
    for flag in [true, false] {
        for (w, h) in [(0usize, 0usize), (0, 3), (3, 0)] {
            let empty = Array2::from_row_major(w, h, Vec::<u8>::new()).unwrap();

            let mut a = empty.clone();
            a.flip_horizontal(flag);
            assert_eq!((a.width(), a.height()), (w, h));
            assert!(a.elements_row_major().is_empty());

            let mut a = empty.clone();
            a.flip_vertical(flag);
            assert_eq!((a.width(), a.height()), (w, h));

            let mut a = empty.clone();
            a.rotate_180(flag);
            assert_eq!((a.width(), a.height()), (w, h));

            let mut a = empty.clone();
            a.rotate_90(flag);
            assert_eq!((a.width(), a.height()), (h, w));
            assert!(a.elements_row_major().is_empty());

            let mut a = empty.clone();
            a.rotate_270(flag);
            assert_eq!((a.width(), a.height()), (h, w));

            let mut a = empty.clone();
            a.transpose(flag);
            assert_eq!((a.width(), a.height()), (h, w));
        }
    }
}

#[test]
fn transforms_clone_values_that_are_not_copy() {
    let names: Vec<String> = ["a", "b", "c", "d", "e", "f"].iter().map(|s| s.to_string()).collect();
    let mut a = Array2::from_row_major(3, 2, names).unwrap();
    a.rotate_90(true);
    let got: Vec<&str> = a.elements_row_major().iter().map(String::as_str).collect();
    assert_eq!(got, vec!["d", "a", "e", "b", "f", "c"]);
    a.transpose(false);
    let got: Vec<&str> = a.elements_row_major().iter().map(String::as_str).collect();
    assert_eq!(got, vec!["d", "e", "f", "a", "b", "c"]);
}
