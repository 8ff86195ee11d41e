use deepnano2::config::{pooled_length, CHUNK_LEN, PAD, STEP, STRIDE, WINDOW_ROWS};
use deepnano2::windows::{count_windows, kept_range, plan_windows, window_at, Window};

fn kept_total(signal_len: usize) -> usize {
    let mut total = 0;
    for w in plan_windows(signal_len) {
        let rows = pooled_length(w.end - w.start);
        let (from, to) = kept_range(w.first, w.last, rows);
        total += to - from;
    }
    total
}

#[test]
fn geometry_constants() {
    assert_eq!(STEP, 1000);
    assert_eq!(PAD, 10);
    assert_eq!(CHUNK_LEN, 3060);
    assert_eq!(STRIDE, 3000);
    assert_eq!(WINDOW_ROWS, 1020);
    assert_eq!(pooled_length(3060), 1020);
    assert_eq!(pooled_length(61), 20);
    assert_eq!(pooled_length(2), 0);
}

#[test]
fn short_signal_has_no_windows() {
    assert_eq!(count_windows(0), 0);
    assert_eq!(count_windows(3059), 0);
    assert!(plan_windows(3059).is_empty());
    assert_eq!(window_at(3059, 0), None);
}

#[test]
fn signal_of_one_chunk_has_one_window() {
    assert_eq!(count_windows(3060), 1);
    let plan = plan_windows(3060);
    assert_eq!(plan, vec![Window { start: 0, end: 3060, first: true, last: true }]);
    let rows = pooled_length(plan[0].end - plan[0].start);
    assert_eq!(kept_range(plan[0].first, plan[0].last, rows), (0, 1020));
}

#[test]
fn one_sample_more_gives_two_windows() {
    assert_eq!(count_windows(3061), 2);
    assert_eq!(
        plan_windows(3061),
        vec![
            Window { start: 0, end: 3060, first: true, last: false },
            Window { start: 3000, end: 3061, first: false, last: true },
        ]
    );
}

#[test]
fn windows_advance_by_the_stride() {
    assert_eq!(
        plan_windows(10000),
        vec![
            Window { start: 0, end: 3060, first: true, last: false },
            Window { start: 3000, end: 6060, first: false, last: false },
            Window { start: 6000, end: 9060, first: false, last: false },
            Window { start: 9000, end: 10000, first: false, last: true },
        ]
    );
}

#[test]
fn aligned_signal_ends_with_a_full_window() {
    assert_eq!(count_windows(6060), 2);
    assert_eq!(
        window_at(6060, 1),
        Some(Window { start: 3000, end: 6060, first: false, last: true })
    );
    assert_eq!(window_at(6060, 2), None);
    assert_eq!(count_windows(6061), 3);
}

#[test]
fn window_at_agrees_with_the_plan() {
    let plan = plan_windows(20000);
    assert_eq!(plan.len(), count_windows(20000));
    for (k, w) in plan.iter().enumerate() {
        assert_eq!(window_at(20000, k), Some(*w));
    }
    assert_eq!(window_at(20000, plan.len()), None);
}

#[test]
fn interior_window_loses_pad_rows_on_both_sides() {
    assert_eq!(kept_range(false, false, 1020), (10, 1010));
}

#[test]
fn first_window_keeps_its_head_and_last_window_its_tail() {
    assert_eq!(kept_range(true, false, 1020), (0, 1010));
    assert_eq!(kept_range(false, true, 1020), (10, 1020));
    assert_eq!(kept_range(false, true, 20), (10, 20));
    assert_eq!(kept_range(true, true, 1020), (0, 1020));
}

#[test]
fn short_outputs_are_trimmed_to_nothing() {
    assert_eq!(kept_range(false, false, 5), (5, 5));
    assert_eq!(kept_range(false, false, 15), (10, 10));
    assert_eq!(kept_range(false, false, 20), (10, 10));
    assert_eq!(kept_range(false, false, 21), (10, 11));
    assert_eq!(kept_range(true, false, 4), (0, 0));
    assert_eq!(kept_range(false, true, 4), (4, 4));
    assert_eq!(kept_range(true, true, 0), (0, 0));
}

#[test]
fn kept_rows_add_up_to_the_pooled_signal() {
    for n in [3060usize, 3061, 3062, 3063, 6059, 6060, 6061, 9999, 12345, 30600, 100001] {
        assert_eq!(kept_total(n), n / 3, "signal of {} samples", n);
    }
}
