//! Counting finished tests while a run goes on.
//!
//! The tracker counts; the caller owns the clock and shares the tracker
//! between workers behind a lock.

use vstd::prelude::*;
use crate::text::{decimal, pad_left, push_decimal, push_padded_decimal, push_str, to_string};

verus! {

/// Counts of finished, passed and failed tests out of a known total.
#[derive(Debug, Clone)]
pub struct ProgressTracker {
    pub total_tests: usize,
    pub completed: usize,
    pub passed: usize,
    pub failed: usize,
}

/// A snapshot of a tracker's counts.
#[derive(Debug, Clone)]
pub struct ProgressStats {
    pub total: usize,
    pub completed: usize,
    pub passed: usize,
    pub failed: usize,
}

impl ProgressTracker {
    /// Every finished test is counted once, as passed or as failed.
    pub open spec fn counts_agree(&self) -> bool {
        self.completed == self.passed + self.failed
    }

    /// Nothing finished yet out of `total_tests`.
    pub fn new(total_tests: usize) -> (res: Self)
        ensures
            res.total_tests == total_tests,
            res.completed == 0,
            res.passed == 0,
            res.failed == 0,
            res.counts_agree(),
    {
        ProgressTracker { total_tests, completed: 0, passed: 0, failed: 0 }
    }

    /// Counts a finished test that passed.
    pub fn mark_passed(&mut self)
        requires
            old(self).completed < usize::MAX,
            old(self).passed < usize::MAX,
        ensures
            final(self).total_tests == old(self).total_tests,
            final(self).completed == old(self).completed + 1,
            final(self).passed == old(self).passed + 1,
            final(self).failed == old(self).failed,
            old(self).counts_agree() ==> final(self).counts_agree(),
            marked(*old(self), *final(self), true),
    {
        self.completed = self.completed + 1;
        self.passed = self.passed + 1;
    }

    /// Counts a finished test that failed.
    pub fn mark_failed(&mut self)
        requires
            old(self).completed < usize::MAX,
            old(self).failed < usize::MAX,
        ensures
            final(self).total_tests == old(self).total_tests,
            final(self).completed == old(self).completed + 1,
            final(self).passed == old(self).passed,
            final(self).failed == old(self).failed + 1,
            old(self).counts_agree() ==> final(self).counts_agree(),
            marked(*old(self), *final(self), false),
    {
        self.completed = self.completed + 1;
        self.failed = self.failed + 1;
    }

    /// The current counts.
    pub fn get_stats(&self) -> (res: ProgressStats)
        ensures
            res.total == self.total_tests,
            res.completed == self.completed,
            res.passed == self.passed,
            res.failed == self.failed,
    {
        ProgressStats {
            total: self.total_tests,
            completed: self.completed,
            passed: self.passed,
            failed: self.failed,
        }
    }

    /// Whether every test has finished.
    pub fn is_complete(&self) -> (res: bool)
        ensures
            res == (self.completed >= self.total_tests),
    {
        self.completed >= self.total_tests
    }
}

/// `b` is `a` after one finished test was counted, as passed or failed.
pub open spec fn marked(a: ProgressTracker, b: ProgressTracker, passed: bool) -> bool {
    &&& b.total_tests == a.total_tests
    &&& b.completed == a.completed + 1
    &&& b.passed == a.passed + (if passed { 1int } else { 0int })
    &&& b.failed == a.failed + (if passed { 0int } else { 1int })
}

/// The number of `true` among the first `n` marks.
pub open spec fn passes(marks: Seq<bool>, n: int) -> int
    decreases n,
{
    if n <= 0 {
        0
    } else {
        passes(marks, n - 1) + (if marks[n - 1] { 1int } else { 0int })
    }
}

/// Counting is exact in any order: a tracker made for `n` tests that then
/// counts the outcomes `marks` one by one (in whatever order the workers
/// finish) holds `n` as its total, every mark as completed, the passes as
/// passed and the rest as failed.
pub proof fn law_tracker_counts(states: Seq<ProgressTracker>, marks: Seq<bool>, n: usize)
    requires
        states.len() == marks.len() + 1,
        states[0].total_tests == n && states[0].completed == 0 && states[0].passed == 0
            && states[0].failed == 0,
        forall|k: int| 0 <= k < marks.len() ==> marked(#[trigger] states[k], states[k + 1], marks[k]),
    ensures
        states.last().total_tests == n,
        states.last().completed == marks.len(),
        states.last().passed == passes(marks, marks.len() as int),
        states.last().failed == marks.len() - passes(marks, marks.len() as int),
        states.last().counts_agree(),
    decreases marks.len(),
{
    if marks.len() > 0 {
        let m = marks.len() - 1;
        assert forall|k: int| 0 <= k < m implies marked(#[trigger] states.drop_last()[k], states.drop_last()[k + 1], marks.drop_last()[k]) by {
            assert(marked(states[k], states[k + 1], marks[k]));
        }
        law_tracker_counts(states.drop_last(), marks.drop_last(), n);
        assert(marked(states[m], states[m + 1], marks[m]));
        lemma_passes_same(marks.drop_last(), marks, m);
    }
}

proof fn lemma_passes_same(a: Seq<bool>, b: Seq<bool>, j: int)
    requires
        0 <= j <= a.len(),
        j <= b.len(),
        forall|k: int| 0 <= k < j ==> a[k] == b[k],
    ensures
        passes(a, j) == passes(b, j),
    decreases j,
{
    if j > 0 {
        lemma_passes_same(a, b, j - 1);
    }
}

/// The progress line: `[ 42%] 5/12 tests (4 passed, 1 failed) - ELAPSED`.
pub open spec fn progress_line(
    percentage: u32,
    completed: usize,
    total: usize,
    passed: usize,
    failed: usize,
    elapsed: Seq<char>,
) -> Seq<char> {
    "["@ + pad_left(decimal(percentage as nat), 3) + "%] "@ + decimal(completed as nat) + "/"@
        + decimal(total as nat) + " tests ("@ + decimal(passed as nat) + " passed, "@ + decimal(
        failed as nat,
    ) + " failed) - "@ + elapsed
}

/// The share done in percent: 100 when there are no tests, else the share
/// the caller computed from `completed / total` (in floating point, which
/// this library does not hold).
pub open spec fn shown_percentage(total: usize, share_percent: u32) -> u32 {
    if total == 0 {
        100
    } else {
        share_percent
    }
}

impl ProgressStats {
    /// The share done in percent (see [`shown_percentage`]).
    pub fn percentage(&self, share_percent: u32) -> (res: u32)
        ensures
            res == shown_percentage(self.total, share_percent),
    {
        if self.total == 0 {
            100
        } else {
            share_percent
        }
    }

    /// The progress line for these counts: the percentage is 100 when there
    /// are no tests, else `share_percent`, the share of `completed / total`
    /// as the caller computed it; the elapsed time is as the caller wrote it.
    pub fn format_progress(&self, share_percent: u32, elapsed: &str) -> (res: String)
        ensures
            res@ == progress_line(
                shown_percentage(self.total, share_percent),
                self.completed,
                self.total,
                self.passed,
                self.failed,
                elapsed@,
            ),
    {
        let percentage = self.percentage(share_percent);
        let mut out: Vec<char> = Vec::new();
        push_str(&mut out, "[");
        push_padded_decimal(&mut out, percentage as u64, 3);
        push_str(&mut out, "%] ");
        push_decimal(&mut out, self.completed as u64);
        push_str(&mut out, "/");
        push_decimal(&mut out, self.total as u64);
        push_str(&mut out, " tests (");
        push_decimal(&mut out, self.passed as u64);
        push_str(&mut out, " passed, ");
        push_decimal(&mut out, self.failed as u64);
        push_str(&mut out, " failed) - ");
        push_str(&mut out, elapsed);
        to_string(&out)
    }
}

} // verus!
