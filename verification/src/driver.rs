//! The streaming driver: trims the overlap off every window's output, joins
//! what is left in window order and decodes the result.
//!
//! The network is run outside this library, once for each window that
//! `plan_windows` lists; its outputs come in here.

use vstd::prelude::*;
use crate::config::{pooled_len, CHUNK_LEN, CLASS_COUNT};
use crate::decode::{decode, decoded};
use crate::error::EngineError;
use crate::matrix::{
    all_of_width, array_concatenate, array_slice_rows, joined_rows, shape_fits, LogitMatrix,
};
use crate::windows::{
    count_windows, kept_end, kept_pooled_total, kept_range, kept_start, lemma_stitched_length,
    lemma_windows_cover, window_count, window_end, window_is_last, window_start,
};

verus! {

/// The rows kept of the output of window `index`.
pub open spec fn kept_rows(signal_len: int, index: int, output: Seq<Seq<u32>>) -> Seq<Seq<u32>> {
    output.subrange(
        kept_start(index == 0, output.len() as int),
        kept_end(index == 0, window_is_last(signal_len, index), output.len() as int),
    )
}

/// The stitched prediction: the kept rows of every output, in window order.
pub open spec fn stitched(signal_len: int, outputs: Seq<LogitMatrix>) -> Seq<Seq<u32>>
    decreases outputs.len(),
{
    if outputs.len() == 0 {
        Seq::empty()
    } else {
        stitched(signal_len, outputs.drop_last()) + kept_rows(
            signal_len,
            outputs.len() - 1,
            outputs.last()@,
        )
    }
}

/// Why the outputs cannot be stitched, if they cannot: there is not one
/// output for each window; or some output does not have one column for each
/// class; or the stitched prediction would be too large to exist.
pub open spec fn stitch_error(signal_len: int, outputs: Seq<LogitMatrix>) -> Option<EngineError> {
    if outputs.len() != window_count(signal_len) {
        Some(EngineError::WindowCount)
    } else if !all_of_width(outputs, CLASS_COUNT as nat) {
        Some(EngineError::ShapeMismatch)
    } else if !shape_fits(stitched(signal_len, outputs).len() as int, CLASS_COUNT as int) {
        Some(EngineError::TooLarge)
    } else {
        None
    }
}

/// Whether two lists of outputs agree on the rows kept of every window.
pub open spec fn agree_on_kept_rows(signal_len: int, a: Seq<LogitMatrix>, b: Seq<LogitMatrix>) -> bool {
    &&& a.len() == b.len()
    &&& forall|k: int|
        0 <= k < a.len() ==> #[trigger] kept_rows(signal_len, k, a[k]@) == kept_rows(signal_len, k, b[k]@)
}

/// Rows that are trimmed off have no influence: outputs that agree on the
/// rows kept of every window are stitched to the same prediction.
pub proof fn lemma_trimmed_rows_are_ignored(signal_len: int, a: Seq<LogitMatrix>, b: Seq<LogitMatrix>)
    requires
        agree_on_kept_rows(signal_len, a, b),
    ensures
        stitched(signal_len, a) == stitched(signal_len, b),
    decreases a.len(),
{
    if a.len() > 0 {
        let last = a.len() - 1;
        let a_before = a.drop_last();
        let b_before = b.drop_last();
        assert(kept_rows(signal_len, last, a[last]@) == kept_rows(signal_len, last, b[last]@));
        assert forall|k: int| 0 <= k < a_before.len() implies #[trigger] kept_rows(
            signal_len,
            k,
            a_before[k]@,
        ) == kept_rows(signal_len, k, b_before[k]@) by {
            assert(kept_rows(signal_len, k, a[k]@) == kept_rows(signal_len, k, b[k]@));
        }
        lemma_trimmed_rows_are_ignored(signal_len, a_before, b_before);
    }
}

/// Every further window adds rows to the stitched prediction, or none.
pub proof fn lemma_stitched_grows(signal_len: int, outputs: Seq<LogitMatrix>, count: int)
    requires
        0 <= count <= outputs.len(),
    ensures
        stitched(signal_len, outputs.take(count)).len() <= stitched(signal_len, outputs).len(),
    decreases outputs.len(),
{
    if count == outputs.len() {
        assert(outputs.take(count) =~= outputs);
    } else {
        assert(outputs.drop_last().take(count) =~= outputs.take(count));
        lemma_stitched_grows(signal_len, outputs.drop_last(), count);
    }
}

/// Whether every output has one row for each `POOL_KERNEL` samples of its window.
pub open spec fn outputs_are_pooled(signal_len: int, outputs: Seq<LogitMatrix>) -> bool {
    forall|k: int|
        0 <= k < outputs.len() ==> (#[trigger] outputs[k])@.len() == pooled_len(
            window_end(signal_len, k) - window_start(k),
        )
}

proof fn lemma_stitched_prefix_length(signal_len: int, outputs: Seq<LogitMatrix>)
    requires
        outputs.len() <= window_count(signal_len),
        outputs_are_pooled(signal_len, outputs),
    ensures
        stitched(signal_len, outputs).len() == kept_pooled_total(signal_len, outputs.len() as int),
    decreases outputs.len(),
{
    if outputs.len() > 0 {
        let last = outputs.len() - 1;
        lemma_windows_cover(signal_len, last);
        assert(outputs[last]@.len() == pooled_len(window_end(signal_len, last) - window_start(last)));
        let before = outputs.drop_last();
        assert forall|k: int| 0 <= k < before.len() implies (#[trigger] before[k])@.len() == pooled_len(
            window_end(signal_len, k) - window_start(k),
        ) by {
            assert(outputs[k]@.len() == pooled_len(window_end(signal_len, k) - window_start(k)));
        }
        lemma_stitched_prefix_length(signal_len, before);
    } else {
        assert(kept_pooled_total(signal_len, 0) == 0);
    }
}

/// The stitched prediction of a signal of at least one window has as many
/// rows as pooling the whole signal at once would give, provided every
/// output has the pooled length of its window.
pub proof fn lemma_stitched_rows(signal_len: int, outputs: Seq<LogitMatrix>)
    requires
        signal_len >= CHUNK_LEN,
        outputs.len() == window_count(signal_len),
        outputs_are_pooled(signal_len, outputs),
    ensures
        stitched(signal_len, outputs).len() == pooled_len(signal_len),
{
    lemma_stitched_prefix_length(signal_len, outputs);
    lemma_stitched_length(signal_len);
}

/// Stitches the outputs of the windows of a signal of `signal_len` samples.
///
/// Of every output but the first, the first `PAD` rows are dropped; of every
/// output but the last, the last `PAD` rows. A signal without windows gives
/// a prediction without rows.
pub fn stitch(signal_len: usize, outputs: &Vec<LogitMatrix>) -> (r: Result<LogitMatrix, EngineError>)
    ensures
        stitch_error(signal_len as int, outputs@) == (match r {
            Ok(_) => None,
            Err(e) => Some(e),
        }),
        r matches Ok(prediction) ==> prediction@ == stitched(signal_len as int, outputs@),
        r matches Ok(prediction) ==> prediction.width() == CLASS_COUNT,
{
    let count: usize = count_windows(signal_len);
    if outputs.len() != count {
        return Err(EngineError::WindowCount);
    }
    let mut checked: usize = 0;
    while checked < count
        invariant
            count == outputs.len(),
            count == window_count(signal_len as int),
            checked <= count,
            forall|k: int| 0 <= k < checked ==> (#[trigger] outputs[k]).width() == CLASS_COUNT,
        decreases count - checked,
    {
        if outputs[checked].ncols() != CLASS_COUNT {
            assert(outputs@[checked as int].width() != CLASS_COUNT);
            return Err(EngineError::ShapeMismatch);
        }
        checked += 1;
    }
    if count == 0 {
        assert(stitched(signal_len as int, outputs@) =~= Seq::empty());
        return LogitMatrix::from_shape_vec(0, CLASS_COUNT, Vec::new());
    }
    let mut parts: Vec<LogitMatrix> = Vec::new();
    let mut total: usize = 0;
    let mut index: usize = 0;
    while index < count
        invariant
            count == outputs.len(),
            count == window_count(signal_len as int),
            index <= count,
            parts.len() == index,
            all_of_width(outputs@, CLASS_COUNT as nat),
            all_of_width(parts@, CLASS_COUNT as nat),
            joined_rows(parts@) == stitched(signal_len as int, outputs@.take(index as int)),
            total == joined_rows(parts@).len(),
        decreases count - index,
    {
        proof {
            lemma_windows_cover(signal_len as int, index as int);
        }
        let output: &LogitMatrix = &outputs[index];
        let range: (usize, usize) = kept_range(index == 0, index + 1 == count, output.nrows());
        let part: LogitMatrix = array_slice_rows(output, range.0, range.1);
        proof {
            let before = outputs@.take(index as int);
            let after = outputs@.take(index + 1);
            assert(after.drop_last() =~= before);
            assert(after.last() == outputs@[index as int]);
            assert(parts@.push(part).drop_last() =~= parts@);
            assert(part@ == kept_rows(signal_len as int, index as int, outputs@[index as int]@));
            assert(stitched(signal_len as int, after).len() == total + (range.1 - range.0));
        }
        match total.checked_add(range.1 - range.0) {
            Some(sum) => {
                total = sum;
            },
            None => {
                proof {
                    lemma_stitched_grows(signal_len as int, outputs@, index + 1);
                    let rows = stitched(signal_len as int, outputs@).len() as int;
                    assert(rows > usize::MAX);
                    assert(rows * CLASS_COUNT > isize::MAX) by (nonlinear_arith)
                        requires
                            rows > isize::MAX,
                            CLASS_COUNT >= 1,
                    ;
                    assert(!shape_fits(rows, CLASS_COUNT as int));
                }
                return Err(EngineError::TooLarge);
            },
        }
        parts.push(part);
        index += 1;
    }
    assert(outputs@.take(count as int) =~= outputs@);
    match array_concatenate(&parts) {
        Ok(prediction) => Ok(prediction),
        Err(_) => Err(EngineError::TooLarge),
    }
}

/// Stitches the outputs of the windows of a signal and decodes the result.
///
/// A signal shorter than one window has no windows and decodes to the empty
/// text.
pub fn call_windows(signal_len: usize, outputs: &Vec<LogitMatrix>) -> (r: Result<String, EngineError>)
    ensures
        stitch_error(signal_len as int, outputs@) == (match r {
            Ok(_) => None,
            Err(e) => Some(e),
        }),
        r matches Ok(text) ==> text@ == decoded(stitched(signal_len as int, outputs@)),
        r matches Ok(text) ==> (signal_len < CHUNK_LEN ==> text@.len() == 0),
{
    match stitch(signal_len, outputs) {
        Ok(prediction) => {
            Ok(decode(&prediction))
        },
        Err(e) => Err(e),
    }
}

} // verus!
