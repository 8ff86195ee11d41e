//! Greedy decoding of a logit matrix into a string of bases.
//!
//! Every row selects one class: the first column that holds the row's
//! greatest logit. A class is written out where it differs from the class
//! of the row before and is not the blank.

use vstd::prelude::*;
use crate::config::CLASS_COUNT;
use crate::error::EngineError;
use crate::matrix::LogitMatrix;
use crate::sample::{exceeds, is_nan, sample_exceeds};

verus! {

/// The class that stands for "no base here".
pub const BLANK: usize = 0;

/// Whether a row of logits selects the class `best`.
///
/// The selected class is the first column whose logit no other column
/// exceeds. A NaN never exceeds anything and nothing exceeds a NaN, so a row
/// that starts with a NaN selects class 0, as does a row without columns;
/// NaNs further on are passed over.
pub open spec fn selects(row: Seq<u32>, best: usize) -> bool {
    if row.len() == 0 || is_nan(row[0]) {
        best == 0
    } else {
        &&& best < row.len()
        &&& !is_nan(row[best as int])
        &&& forall|j: int| 0 <= j < row.len() ==> !exceeds(#[trigger] row[j], row[best as int])
        &&& forall|j: int|
            0 <= j < best ==> is_nan(#[trigger] row[j]) || exceeds(row[best as int], row[j])
    }
}

/// The class that a row selects.
pub open spec fn selected_class(row: Seq<u32>) -> usize {
    choose|best: usize| selects(row, best)
}

/// The classes that the rows of a matrix select, row by row.
pub open spec fn selected_classes(rows: Seq<Seq<u32>>) -> Seq<usize> {
    Seq::new(rows.len(), |i: int| selected_class(rows[i]))
}

/// The letter of a class: `A`, `C`, `G`, `T` for the classes 1 to 4. The
/// blank has the letter `N`, which is never written out.
pub open spec fn symbol(class: usize) -> char {
    if class == 1 {
        'A'
    } else if class == 2 {
        'C'
    } else if class == 3 {
        'G'
    } else if class == 4 {
        'T'
    } else {
        'N'
    }
}

/// Whether position `i` of a class sequence is written out: its class is
/// not the blank and differs from the class before it. The class before
/// position 0 counts as the blank.
pub open spec fn emits(classes: Seq<usize>, i: int) -> bool {
    let previous = if i == 0 { BLANK } else { classes[i - 1] };
    classes[i] != BLANK && classes[i] != previous
}

/// The letters of the positions that are written out, in order.
pub open spec fn collapsed(classes: Seq<usize>) -> Seq<char>
    decreases classes.len(),
{
    if classes.len() == 0 {
        Seq::empty()
    } else if emits(classes, classes.len() - 1) {
        collapsed(classes.drop_last()).push(symbol(classes.last()))
    } else {
        collapsed(classes.drop_last())
    }
}

/// The text that a logit matrix decodes to.
pub open spec fn decoded(rows: Seq<Seq<u32>>) -> Seq<char> {
    collapsed(selected_classes(rows))
}

/// A row selects one class only.
pub proof fn lemma_selection_unique(row: Seq<u32>, a: usize, b: usize)
    requires
        selects(row, a),
        selects(row, b),
    ensures
        a == b,
{
    if !(row.len() == 0 || is_nan(row[0])) {
        if a < b {
            assert(is_nan(row[a as int]) || exceeds(row[b as int], row[a as int]));
            assert(!exceeds(row[b as int], row[a as int]));
        } else if b < a {
            assert(is_nan(row[b as int]) || exceeds(row[a as int], row[b as int]));
            assert(!exceeds(row[a as int], row[b as int]));
        }
    }
}

/// The class that a row is seen to select is its selected class.
pub proof fn lemma_selected(row: Seq<u32>, best: usize)
    requires
        selects(row, best),
    ensures
        selected_class(row) == best,
{
    lemma_selection_unique(row, best, selected_class(row));
}

/// The selection of a row whose last logit is new, given the class `best`
/// that the row selected without it: the new column if its logit exceeds
/// the one selected so far, else `best` as before.
pub open spec fn selection_step(row: Seq<u32>, best: usize) -> usize {
    if exceeds(row.last(), row[best as int]) {
        (row.len() - 1) as usize
    } else {
        best
    }
}

/// Scanning a row from its first column and keeping the earlier column on
/// equality arrives at the class that the row selects.
pub proof fn lemma_selection_step(row: Seq<u32>, best: usize)
    requires
        row.len() > 0,
        row.len() <= usize::MAX,
        selects(row.drop_last(), best),
    ensures
        best < row.len(),
        selects(row, selection_step(row, best)),
{
    let prefix = row.drop_last();
    let last = (row.len() - 1) as usize;
    if prefix.len() == 0 || is_nan(prefix[0]) {
        assert(best == 0);
        if prefix.len() > 0 {
            assert(prefix[0] == row[0]);
        }
    } else {
        assert(prefix[0] == row[0]);
        assert(prefix[best as int] == row[best as int]);
        if exceeds(row.last(), row[best as int]) {
            assert forall|j: int| 0 <= j < row.len() implies !exceeds(
                #[trigger] row[j],
                row[last as int],
            ) by {
                if j < prefix.len() {
                    assert(!exceeds(prefix[j], prefix[best as int]));
                }
            }
            assert forall|j: int| 0 <= j < last implies is_nan(#[trigger] row[j]) || exceeds(
                row[last as int],
                row[j],
            ) by {
                assert(!exceeds(prefix[j], prefix[best as int]));
            }
        } else {
            assert forall|j: int| 0 <= j < row.len() implies !exceeds(
                #[trigger] row[j],
                row[best as int],
            ) by {
                if j < prefix.len() {
                    assert(!exceeds(prefix[j], prefix[best as int]));
                }
            }
            assert forall|j: int| 0 <= j < best implies is_nan(#[trigger] row[j]) || exceeds(
                row[best as int],
                row[j],
            ) by {
                assert(is_nan(prefix[j]) || exceeds(prefix[best as int], prefix[j]));
            }
        }
    }
}

/// A sequence of blanks collapses to nothing.
pub proof fn lemma_collapsed_blanks(classes: Seq<usize>)
    requires
        forall|i: int| 0 <= i < classes.len() ==> classes[i] == BLANK,
    ensures
        collapsed(classes) == Seq::<char>::empty(),
    decreases classes.len(),
{
    if classes.len() > 0 {
        lemma_collapsed_blanks(classes.drop_last());
    }
}

/// A run of one class that is not the blank collapses to a single letter.
pub proof fn lemma_collapsed_run(classes: Seq<usize>, class: usize)
    requires
        classes.len() > 0,
        class != BLANK,
        forall|i: int| 0 <= i < classes.len() ==> classes[i] == class,
    ensures
        collapsed(classes) == seq![symbol(class)],
    decreases classes.len(),
{
    if classes.len() == 1 {
        assert(collapsed(classes.drop_last()) == Seq::<char>::empty());
        assert(collapsed(classes) =~= seq![symbol(class)]);
    } else {
        lemma_collapsed_run(classes.drop_last(), class);
    }
}

/// Where no class is the blank and no class repeats the one before it,
/// every position is written out.
pub proof fn lemma_collapsed_distinct(classes: Seq<usize>)
    requires
        forall|i: int| 0 <= i < classes.len() ==> classes[i] != BLANK,
        forall|i: int| 0 < i < classes.len() ==> (#[trigger] classes[i]) != classes[i - 1],
    ensures
        collapsed(classes).len() == classes.len(),
        forall|i: int| 0 <= i < classes.len() ==> collapsed(classes)[i] == symbol(classes[i]),
    decreases classes.len(),
{
    if classes.len() > 0 {
        let prefix = classes.drop_last();
        lemma_collapsed_distinct(prefix);
        assert(emits(classes, classes.len() - 1));
        assert forall|i: int| 0 <= i < classes.len() implies collapsed(classes)[i] == symbol(
            classes[i],
        ) by {
            if i < prefix.len() {
                assert(collapsed(prefix)[i] == symbol(prefix[i]));
            }
        }
    }
}

/// Decoding is a function of what the matrix holds: two matrices with the
/// same rows decode to the same text, and so do two decodings of one matrix.
pub proof fn lemma_decode_repeatable(a: LogitMatrix, b: LogitMatrix)
    requires
        a@ == b@,
    ensures
        decoded(a@) == decoded(b@),
{
}

/// Blank suppression: a matrix whose every row selects the blank decodes to
/// the empty text.
pub proof fn lemma_decode_blanks(rows: Seq<Seq<u32>>)
    requires
        forall|i: int| 0 <= i < rows.len() ==> selects(#[trigger] rows[i], BLANK),
    ensures
        decoded(rows) == Seq::<char>::empty(),
{
    let classes = selected_classes(rows);
    assert forall|i: int| 0 <= i < classes.len() implies classes[i] == BLANK by {
        lemma_selected(rows[i], BLANK);
    }
    lemma_collapsed_blanks(classes);
}

/// Run-length collapse: a matrix with at least one row, whose every row
/// selects the same class other than the blank, decodes to that class's
/// letter alone.
pub proof fn lemma_decode_run(rows: Seq<Seq<u32>>, class: usize)
    requires
        rows.len() > 0,
        class != BLANK,
        forall|i: int| 0 <= i < rows.len() ==> selects(#[trigger] rows[i], class),
    ensures
        decoded(rows) == seq![symbol(class)],
        decoded(rows).len() == 1,
{
    let classes = selected_classes(rows);
    assert forall|i: int| 0 <= i < classes.len() implies classes[i] == class by {
        lemma_selected(rows[i], class);
    }
    lemma_collapsed_run(classes, class);
}

/// The class that row `i` of an alternating matrix selects: 1 on even rows,
/// 2 on odd rows.
pub open spec fn alternating_class(i: int) -> usize {
    if i % 2 == 0 {
        1
    } else {
        2
    }
}

/// Alternation: a matrix whose rows select the classes 1 and 2 in turn
/// decodes to one letter for every row, `A` and `C` in turn.
pub proof fn lemma_decode_alternating(rows: Seq<Seq<u32>>)
    requires
        forall|i: int| 0 <= i < rows.len() ==> selects(#[trigger] rows[i], alternating_class(i)),
    ensures
        decoded(rows).len() == rows.len(),
        forall|i: int| 0 <= i < rows.len() ==> decoded(rows)[i] == symbol(alternating_class(i)),
{
    let classes = selected_classes(rows);
    assert forall|i: int| 0 <= i < classes.len() implies classes[i] == alternating_class(i) by {
        lemma_selected(rows[i], alternating_class(i));
    }
    lemma_collapsed_distinct(classes);
}

/// The class that a row of logits selects.
pub fn select_class(row: &Vec<u32>) -> (best: usize)
    ensures
        selects(row@, best),
        best == selected_class(row@),
        row.len() > 0 ==> best < row.len(),
{
    let mut best: usize = 0;
    let mut i: usize = 0;
    while i < row.len()
        invariant
            i <= row.len(),
            selects(row@.take(i as int), best),
            best == 0 || best < i,
        decreases row.len() - i,
    {
        proof {
            let next = row@.take(i + 1);
            assert(next.drop_last() =~= row@.take(i as int));
            lemma_selection_step(next, best);
            assert(next.last() == row@[i as int]);
            assert(next[best as int] == row@[best as int]);
        }
        if sample_exceeds(row[i], row[best]) {
            best = i;
        }
        i += 1;
    }
    proof {
        assert(row@.take(row.len() as int) =~= row@);
        lemma_selected(row@, best);
    }
    best
}

/// The classes that the rows of a matrix select, row by row.
pub fn select_classes(prediction: &LogitMatrix) -> (classes: Vec<usize>)
    ensures
        classes@ == selected_classes(prediction@),
        forall|i: int| 0 <= i < classes.len() ==> selects(prediction@[i], #[trigger] classes[i]),
        forall|i: int|
            0 <= i < classes.len() ==> (#[trigger] classes[i]) == 0 || classes[i] < prediction.width(),
{
    let rows: usize = prediction.nrows();
    let width: usize = prediction.ncols();
    let mut classes: Vec<usize> = Vec::new();
    let mut i: usize = 0;
    while i < rows
        invariant
            rows == prediction@.len(),
            width == prediction.width(),
            forall|k: int| 0 <= k < prediction@.len() ==> (#[trigger] prediction@[k]).len() == width,
            i <= rows,
            classes.len() == i,
            forall|k: int| 0 <= k < i ==> selects(prediction@[k], #[trigger] classes[k]),
            forall|k: int| 0 <= k < i ==> (#[trigger] classes[k]) == selected_class(prediction@[k]),
            forall|k: int| 0 <= k < i ==> (#[trigger] classes[k]) == 0 || classes[k] < width,
        decreases rows - i,
    {
        let best: usize = match prediction.row(i) {
            Some(cells) => select_class(&cells),
            None => 0,
        };
        classes.push(best);
        i += 1;
    }
    assert(classes@ =~= selected_classes(prediction@));
    classes
}

/// The letter of a class.
pub fn symbol_of(class: usize) -> (letter: char)
    ensures
        letter == symbol(class),
{
    if class == 1 {
        'A'
    } else if class == 2 {
        'C'
    } else if class == 3 {
        'G'
    } else if class == 4 {
        'T'
    } else {
        'N'
    }
}

/// `String::push` of the standard library, which appends one character.
pub assume_specification[ String::push ](text: &mut String, letter: char)
    ensures
        final(text)@ == old(text)@.push(letter),
;

/// Collapses runs and drops blanks: writes out the letter of every class
/// that is not the blank and differs from the class before it.
pub fn collapse(classes: &Vec<usize>) -> (text: String)
    requires
        forall|i: int| 0 <= i < classes.len() ==> (#[trigger] classes[i]) < CLASS_COUNT,
    ensures
        text@ == collapsed(classes@),
{
    let mut text: String = String::new();
    let mut previous: usize = BLANK;
    let mut i: usize = 0;
    while i < classes.len()
        invariant
            i <= classes.len(),
            previous == (if i == 0 { BLANK } else { classes[i - 1] }),
            text@ == collapsed(classes@.take(i as int)),
        decreases classes.len() - i,
    {
        let current: usize = classes[i];
        proof {
            let next = classes@.take(i + 1);
            assert(next.drop_last() =~= classes@.take(i as int));
            assert(emits(next, i as int) == (current != BLANK && current != previous));
        }
        if current != previous && current != BLANK {
            text.push(symbol_of(current));
        }
        previous = current;
        i += 1;
    }
    assert(classes@.take(classes.len() as int) =~= classes@);
    text
}

/// Decodes a logit matrix of at most `CLASS_COUNT` columns.
pub fn decode(prediction: &LogitMatrix) -> (text: String)
    requires
        prediction.width() <= CLASS_COUNT,
    ensures
        text@ == decoded(prediction@),
{
    let classes: Vec<usize> = select_classes(prediction);
    collapse(&classes)
}

/// Decodes a logit matrix, or fails with `ShapeMismatch` where it has more
/// columns than there are classes.
pub fn try_decode(prediction: &LogitMatrix) -> (r: Result<String, EngineError>)
    ensures
        r is Ok <==> prediction.width() <= CLASS_COUNT,
        r matches Ok(text) ==> text@ == decoded(prediction@),
        r matches Err(e) ==> e == EngineError::ShapeMismatch,
{
    if prediction.ncols() <= CLASS_COUNT {
        Ok(decode(prediction))
    } else {
        Err(EngineError::ShapeMismatch)
    }
}

} // verus!
