use deepnano2::config::pooled_length;
use deepnano2::driver::{call_windows, stitch};
use deepnano2::error::EngineError;
use deepnano2::matrix::LogitMatrix;
use deepnano2::windows::plan_windows;

fn of_classes(classes: &[usize]) -> LogitMatrix {
    let mut bits = Vec::new();
    for &class in classes {
        for column in 0..5 {
            let logit: f32 = if column == class { 1.0 } else { -1.0 };
            bits.push(logit.to_bits());
        }
    }
    LogitMatrix::from_shape_vec(classes.len(), 5, bits).unwrap()
}

fn numbered(first: u32, rows: usize) -> LogitMatrix {
    let mut cells = Vec::new();
    for r in 0..rows as u32 {
        for _ in 0..5 {
            cells.push(first + r);
        }
    }
    LogitMatrix::from_shape_vec(rows, 5, cells).unwrap()
}

fn first_column(m: &LogitMatrix) -> Vec<u32> {
    (0..m.nrows()).map(|i| m.get(i, 0).unwrap()).collect()
}

#[test]
fn signal_shorter_than_a_chunk_decodes_to_nothing() {
    assert_eq!(call_windows(3059, &Vec::new()), Ok(String::new()));
    assert_eq!(call_windows(0, &Vec::new()), Ok(String::new()));
    let prediction = stitch(100, &Vec::new()).unwrap();
    assert_eq!(prediction.nrows(), 0);
    assert_eq!(prediction.ncols(), 5);
}

#[test]
fn single_window_is_kept_whole() {
    let mut classes = vec![0usize; 1020];
    classes[0] = 1;
    classes[1019] = 2;
    let outputs = vec![of_classes(&classes)];
    let prediction = stitch(3060, &outputs).unwrap();
    assert_eq!(prediction.nrows(), 1020);
    assert_eq!(call_windows(3060, &outputs), Ok(String::from("AC")));
}

#[test]
fn discarded_overlap_does_not_reach_the_text() {
    let mut head = vec![1usize; 1010];
    head.extend(vec![3usize; 10]);
    let mut tail = vec![4usize; 10];
    tail.extend(vec![2usize; 10]);
    let outputs = vec![of_classes(&head), of_classes(&tail)];
    assert_eq!(call_windows(3061, &outputs), Ok(String::from("AC")));
}

#[test]
fn kept_rows_follow_each_other_in_window_order() {
    let outputs = vec![numbered(0, 1020), numbered(10_000, 1020), numbered(20_000, 20)];
    let prediction = stitch(6061, &outputs).unwrap();
    let mut expected: Vec<u32> = (0..1010).collect();
    expected.extend(10_010..11_010);
    expected.extend(20_010..20_020);
    assert_eq!(first_column(&prediction), expected);
    assert_eq!(prediction.nrows(), 6061 / 3);
    assert_eq!(prediction.ncols(), 5);
}

#[test]
fn stitched_length_is_the_pooled_signal_length() {
    for n in [3060usize, 3061, 6060, 6500, 9000, 15_001] {
        let outputs: Vec<LogitMatrix> = plan_windows(n)
            .iter()
            .map(|w| numbered(0, pooled_length(w.end - w.start)))
            .collect();
        let prediction = stitch(n, &outputs).unwrap();
        assert_eq!(prediction.nrows(), n / 3, "signal of {} samples", n);
    }
}

#[test]
fn base_held_across_a_seam_is_written_once() {
    let outputs = vec![of_classes(&[1; 1020]), of_classes(&[1; 1020]), of_classes(&[1; 500])];
    assert_eq!(call_windows(7500, &outputs), Ok(String::from("A")));
}

#[test]
fn short_outputs_contribute_what_is_left_of_them() {
    let outputs = vec![numbered(0, 12), numbered(100, 25), numbered(200, 4)];
    let prediction = stitch(6061, &outputs).unwrap();
    assert_eq!(first_column(&prediction), vec![0, 1, 110, 111, 112, 113, 114]);
}

#[test]
fn wrong_number_of_outputs_is_rejected() {
    assert_eq!(call_windows(3061, &vec![of_classes(&[1; 1020])]), Err(EngineError::WindowCount));
    assert_eq!(call_windows(3059, &vec![of_classes(&[1; 1020])]), Err(EngineError::WindowCount));
    assert_eq!(stitch(3060, &Vec::new()).err(), Some(EngineError::WindowCount));
}

#[test]
fn output_of_another_width_is_rejected() {
    let narrow = LogitMatrix::from_shape_vec(1020, 4, vec![0; 4080]).unwrap();
    assert_eq!(call_windows(3060, &vec![narrow]), Err(EngineError::ShapeMismatch));
    let wide = LogitMatrix::from_shape_vec(20, 6, vec![0; 120]).unwrap();
    let outputs = vec![of_classes(&[1; 1020]), wide];
    assert_eq!(stitch(3061, &outputs).err(), Some(EngineError::ShapeMismatch));
}

#[test]
fn count_is_checked_before_width() {
    let narrow = LogitMatrix::from_shape_vec(2, 4, vec![0; 8]).unwrap();
    assert_eq!(stitch(3061, &vec![narrow]).err(), Some(EngineError::WindowCount));
}
