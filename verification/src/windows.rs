//! Where the windows of a signal lie, and which rows of each window's
//! output survive the trimming of overlap.
//!
//! Windows of `CHUNK_LEN` samples start every `STRIDE` samples. The window
//! that reaches the end of the signal is the last one and may be shorter. A
//! signal shorter than one window has no windows.

use vstd::prelude::*;
use crate::config::{pooled_len, CHUNK_LEN, PAD, STEP, STRIDE, WINDOW_ROWS};

verus! {

/// One window of a signal: the samples from `start` up to, not including, `end`.
#[derive(Clone, Copy, Debug, PartialEq, Eq, Structural)]
pub struct Window {
    pub start: usize,
    pub end: usize,
    /// No window precedes this one.
    pub first: bool,
    /// This window reaches the end of the signal.
    pub last: bool,
}

/// The number of windows of a signal of `signal_len` samples.
pub open spec fn window_count(signal_len: int) -> int {
    if signal_len < CHUNK_LEN {
        0
    } else {
        (signal_len - CHUNK_LEN + STRIDE - 1) / (STRIDE as int) + 1
    }
}

/// The first sample of window `index`.
pub open spec fn window_start(index: int) -> int {
    index * STRIDE
}

/// Whether window `index` reaches the end of the signal.
pub open spec fn window_is_last(signal_len: int, index: int) -> bool {
    window_start(index) + CHUNK_LEN >= signal_len
}

/// One past the last sample of window `index`.
pub open spec fn window_end(signal_len: int, index: int) -> int {
    if window_is_last(signal_len, index) {
        signal_len
    } else {
        window_start(index) + CHUNK_LEN
    }
}

impl Window {
    /// Whether this is window `index` of a signal of `signal_len` samples.
    pub open spec fn is_window(&self, signal_len: int, index: int) -> bool {
        &&& self.start == window_start(index)
        &&& self.end == window_end(signal_len, index)
        &&& self.first == (index == 0)
        &&& self.last == window_is_last(signal_len, index)
    }
}

/// The first row kept of a window's output of `rows` rows: row 0 for the
/// first window; otherwise `PAD` rows are dropped, or all where there are
/// fewer.
pub open spec fn kept_start(first: bool, rows: int) -> int {
    if first {
        0
    } else if rows < PAD {
        rows
    } else {
        PAD as int
    }
}

/// One past the last row kept of a window's output of `rows` rows: all
/// remaining rows for the last window; otherwise `PAD` rows are dropped at
/// the end, or all that remain where there are fewer.
pub open spec fn kept_end(first: bool, last: bool, rows: int) -> int {
    if last {
        rows
    } else if rows - PAD < kept_start(first, rows) {
        kept_start(first, rows)
    } else {
        rows - PAD
    }
}

/// The windows of a signal are numbered up to the one that reaches its end:
/// every window before the final one falls short of the end, lies within the
/// signal and has full length; the final one is the only one marked last.
pub proof fn lemma_windows_cover(signal_len: int, index: int)
    requires
        0 <= index < window_count(signal_len),
    ensures
        signal_len >= CHUNK_LEN,
        window_is_last(signal_len, index) <==> index == window_count(signal_len) - 1,
        0 <= window_start(index) < window_end(signal_len, index) <= signal_len,
        window_end(signal_len, index) - window_start(index) <= CHUNK_LEN,
        window_end(signal_len, index) - window_start(index) > 6 * PAD,
{
}

/// A signal has no window exactly when it is shorter than one window.
pub proof fn lemma_no_windows(signal_len: int)
    ensures
        window_count(signal_len) == 0 <==> signal_len < CHUNK_LEN,
        window_count(signal_len) >= 0,
{
}

/// Computes [`window_count`].
pub fn count_windows(signal_len: usize) -> (count: usize)
    ensures
        count == window_count(signal_len as int),
        count == 0 <==> signal_len < CHUNK_LEN,
{
    if signal_len < CHUNK_LEN {
        0
    } else {
        (signal_len - CHUNK_LEN + (STRIDE - 1)) / STRIDE + 1
    }
}

/// Window `index` of a signal of `signal_len` samples, if the signal has
/// that many windows.
pub fn window_at(signal_len: usize, index: usize) -> (w: Option<Window>)
    ensures
        w is Some <==> index < window_count(signal_len as int),
        w matches Some(window) ==> window.is_window(signal_len as int, index as int),
        w matches Some(window) ==> window.start < window.end <= signal_len,
{
    if index >= count_windows(signal_len) {
        return None;
    }
    proof {
        lemma_windows_cover(signal_len as int, index as int);
    }
    let start: usize = index * STRIDE;
    let last: bool = signal_len - start <= CHUNK_LEN;
    let end: usize = if last { signal_len } else { start + CHUNK_LEN };
    Some(Window { start, end, first: index == 0, last })
}

/// All windows of a signal of `signal_len` samples, in order.
pub fn plan_windows(signal_len: usize) -> (plan: Vec<Window>)
    ensures
        plan.len() == window_count(signal_len as int),
        forall|k: int| 0 <= k < plan.len() ==> (#[trigger] plan[k]).is_window(signal_len as int, k),
        forall|k: int| 0 <= k < plan.len() ==> (#[trigger] plan[k]).start < plan[k].end <= signal_len,
{
    let count: usize = count_windows(signal_len);
    let mut plan: Vec<Window> = Vec::new();
    let mut index: usize = 0;
    while index < count
        invariant
            count == window_count(signal_len as int),
            index <= count,
            plan.len() == index,
            forall|k: int| 0 <= k < index ==> (#[trigger] plan[k]).is_window(signal_len as int, k),
            forall|k: int| 0 <= k < index ==> (#[trigger] plan[k]).start < plan[k].end <= signal_len,
        decreases count - index,
    {
        match window_at(signal_len, index) {
            Some(window) => plan.push(window),
            None => {},
        }
        index += 1;
    }
    plan
}

/// The rows to keep of a window's output of `rows` rows, as a range.
pub fn kept_range(first: bool, last: bool, rows: usize) -> (range: (usize, usize))
    ensures
        range.0 == kept_start(first, rows as int),
        range.1 == kept_end(first, last, rows as int),
        range.0 <= range.1 <= rows,
{
    let start: usize = if first {
        0
    } else if rows < PAD {
        rows
    } else {
        PAD
    };
    let end: usize = if last {
        rows
    } else if rows < PAD || rows - PAD < start {
        start
    } else {
        rows - PAD
    };
    (start, end)
}

/// The number of rows kept of window `index` when the network returns one
/// row for every `POOL_KERNEL` samples of a window.
pub open spec fn kept_pooled(signal_len: int, index: int) -> int {
    let rows = pooled_len(window_end(signal_len, index) - window_start(index));
    kept_end(index == 0, window_is_last(signal_len, index), rows) - kept_start(index == 0, rows)
}

/// The rows kept of the first `count` windows together.
pub open spec fn kept_pooled_total(signal_len: int, count: int) -> int
    decreases count,
{
    if count <= 0 {
        0
    } else {
        kept_pooled_total(signal_len, count - 1) + kept_pooled(signal_len, count - 1)
    }
}

/// The pooled rows of the first `count` windows together, overlap counted
/// as often as it occurs.
pub open spec fn pooled_total(signal_len: int, count: int) -> int
    decreases count,
{
    if count <= 0 {
        0
    } else {
        pooled_total(signal_len, count - 1) + pooled_len(window_end(signal_len, count - 1) - window_start(count - 1))
    }
}

proof fn lemma_kept_before_last(signal_len: int, count: int)
    requires
        1 <= count < window_count(signal_len),
    ensures
        kept_pooled_total(signal_len, count) == count * STEP + PAD,
        pooled_total(signal_len, count) == count * WINDOW_ROWS,
    decreases count,
{
    lemma_windows_cover(signal_len, count - 1);
    assert(pooled_len(CHUNK_LEN as int) == WINDOW_ROWS);
    assert((count - 1) * WINDOW_ROWS + WINDOW_ROWS == count * WINDOW_ROWS) by (nonlinear_arith);
    assert(count == 1 ==> count * WINDOW_ROWS == WINDOW_ROWS) by (nonlinear_arith);
    assert(window_end(signal_len, count - 1) - window_start(count - 1) == CHUNK_LEN);
    if count > 1 {
        lemma_kept_before_last(signal_len, count - 1);
    } else {
        assert(kept_pooled_total(signal_len, 0) == 0);
        assert(pooled_total(signal_len, 0) == 0);
    }
}

/// Stitching loses nothing and counts nothing twice: for a signal of at
/// least one window, the rows kept of all windows together are as many as
/// pooling the whole signal at once would give, wherever the windows'
/// boundaries fall. That is the sum of the windows' pooled lengths less the
/// `2 * PAD` rows that each pair of neighbours shares.
pub proof fn lemma_stitched_length(signal_len: int)
    requires
        signal_len >= CHUNK_LEN,
    ensures
        kept_pooled_total(signal_len, window_count(signal_len)) == pooled_len(signal_len),
        kept_pooled_total(signal_len, window_count(signal_len)) == pooled_total(signal_len, window_count(signal_len))
            - 2 * PAD * (window_count(signal_len) - 1),
{
    let count = window_count(signal_len);
    lemma_windows_cover(signal_len, count - 1);
    assert(2 * PAD * (count - 1) == (count - 1) * WINDOW_ROWS - (count - 1) * STEP) by (nonlinear_arith)
        requires
            WINDOW_ROWS == STEP + 2 * PAD,
    ;
    if count > 1 {
        lemma_kept_before_last(signal_len, count - 1);
    } else {
        assert(kept_pooled_total(signal_len, 0) == 0);
        assert(pooled_total(signal_len, 0) == 0);
    }
}

} // verus!
