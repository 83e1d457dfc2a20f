//! What a reader concludes from one attempt to read.
//!
//! An attempt loads the counter, copies the data and loads the counter again.
//! The two loaded values decide alone whether the copy can be trusted.

use vstd::prelude::*;
use crate::sequence::is_write_in_progress;
use crate::sequence::write_in_progress;

verus! {

/// How one attempt to read ended.
#[derive(Debug, PartialEq, Eq)]
pub enum ReadOutcome<R> {
    /// The first load of the counter gave an odd value: a write is under way.
    /// Nothing was copied. The reader gives way to other threads and tries
    /// again.
    WriteInProgress,
    /// The second load of the counter differed from the first: a write began
    /// or ended while the copy was made. The copy is thrown away and the
    /// reader tries again at once.
    Interrupted,
    /// Both loads gave the same even value: the copy is whole.
    Consistent(R),
}

/// The outcome of an attempt whose first load gave `seq1`, whose second load
/// gave `seq2` and whose copy is `copy`.
pub open spec fn read_outcome<R>(seq1: usize, seq2: usize, copy: R) -> ReadOutcome<R> {
    if write_in_progress(seq1) {
        ReadOutcome::WriteInProgress
    } else if seq1 == seq2 {
        ReadOutcome::Consistent(copy)
    } else {
        ReadOutcome::Interrupted
    }
}

/// Decides what becomes of a copy made between two loads of the counter that
/// gave `seq1` and `seq2`.
pub fn conclude<R>(seq1: usize, seq2: usize, copy: R) -> (out: ReadOutcome<R>)
    ensures
        out == read_outcome(seq1, seq2, copy),
{
    if is_write_in_progress(seq1) {
        ReadOutcome::WriteInProgress
    } else if seq1 == seq2 {
        ReadOutcome::Consistent(copy)
    } else {
        ReadOutcome::Interrupted
    }
}

/// A copy is kept exactly when both loads gave the same even value.
pub proof fn kept_only_between_equal_even_loads<R>(seq1: usize, seq2: usize, copy: R)
    ensures
        read_outcome(seq1, seq2, copy) is Consistent <==> !write_in_progress(seq1) && seq1
            == seq2,
        read_outcome(seq1, seq2, copy) is Consistent ==> read_outcome(seq1, seq2, copy)
            == ReadOutcome::Consistent(copy) && !write_in_progress(seq2),
{
}

} // verus!
