use deepnano2::error::EngineError;
use deepnano2::matrix::LogitMatrix;

fn counting(rows: usize, cols: usize) -> LogitMatrix {
    let data: Vec<u32> = (0..(rows * cols) as u32).collect();
    LogitMatrix::from_shape_vec(rows, cols, data).unwrap()
}

#[test]
fn from_shape_vec_is_row_major() {
    let m = counting(2, 3);
    assert_eq!(m.nrows(), 2);
    assert_eq!(m.ncols(), 3);
    assert_eq!(m.get(0, 0), Some(0));
    assert_eq!(m.get(0, 2), Some(2));
    assert_eq!(m.get(1, 0), Some(3));
    assert_eq!(m.get(1, 2), Some(5));
}

#[test]
fn get_outside_the_matrix_is_none() {
    let m = counting(2, 3);
    assert_eq!(m.get(2, 0), None);
    assert_eq!(m.get(0, 3), None);
    assert_eq!(m.get(usize::MAX, usize::MAX), None);
}

#[test]
fn row_returns_the_cells_of_one_row() {
    let m = counting(3, 5);
    assert_eq!(m.row(0), Some(vec![0, 1, 2, 3, 4]));
    assert_eq!(m.row(2), Some(vec![10, 11, 12, 13, 14]));
    assert_eq!(m.row(3), None);
}

#[test]
fn from_shape_vec_rejects_a_wrong_length() {
    let r = LogitMatrix::from_shape_vec(2, 3, vec![1, 2, 3, 4, 5]);
    assert_eq!(r.err(), Some(EngineError::ShapeMismatch));
    let r = LogitMatrix::from_shape_vec(0, 5, vec![1]);
    assert_eq!(r.err(), Some(EngineError::ShapeMismatch));
    let r = LogitMatrix::from_shape_vec(usize::MAX, 2, vec![1, 2]);
    assert_eq!(r.err(), Some(EngineError::ShapeMismatch));
}

#[test]
fn from_shape_vec_rejects_a_shape_that_cannot_exist() {
    let r = LogitMatrix::from_shape_vec(usize::MAX / 2 + 1, 0, Vec::new());
    assert_eq!(r.err(), Some(EngineError::TooLarge));
    let r = LogitMatrix::from_shape_vec(0, usize::MAX, Vec::new());
    assert_eq!(r.err(), Some(EngineError::TooLarge));
}

#[test]
fn matrix_without_rows_keeps_its_width() {
    let m = LogitMatrix::from_shape_vec(0, 5, Vec::new()).unwrap();
    assert_eq!(m.nrows(), 0);
    assert_eq!(m.ncols(), 5);
    assert_eq!(m.row(0), None);
    let largest = LogitMatrix::from_shape_vec(0, usize::MAX / 2, Vec::new()).unwrap();
    assert_eq!(largest.ncols(), usize::MAX / 2);
}

#[test]
fn rows_between_copies_the_rows_of_the_range() {
    let m = counting(4, 2);
    let part = m.rows_between(1, 3).unwrap();
    assert_eq!(part.nrows(), 2);
    assert_eq!(part.ncols(), 2);
    assert_eq!(part.row(0), Some(vec![2, 3]));
    assert_eq!(part.row(1), Some(vec![4, 5]));
    assert_eq!(m.nrows(), 4);
}

#[test]
fn rows_between_may_be_empty_or_whole() {
    let m = counting(4, 2);
    let none = m.rows_between(2, 2).unwrap();
    assert_eq!(none.nrows(), 0);
    assert_eq!(none.ncols(), 2);
    let all = m.rows_between(0, 4).unwrap();
    assert_eq!(all.nrows(), 4);
    assert_eq!(all.row(3), Some(vec![6, 7]));
}

#[test]
fn rows_between_refuses_what_is_no_range_of_rows() {
    let m = counting(4, 2);
    assert!(m.rows_between(3, 2).is_none());
    assert!(m.rows_between(0, 5).is_none());
    assert!(m.rows_between(5, 5).is_none());
    assert!(m.rows_between(4, 4).is_some());
}
