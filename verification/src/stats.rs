//! The counters of a run.

use vstd::prelude::*;
use crate::pipeline::{Outcome, OutcomeView};
use crate::report::{summary, summary_text};

verus! {

/// The counters of a run: the lines taken in, those that did not parse, and
/// the records that were accepted.
pub struct ProcessingStats {
    total_lines: usize,
    error_count: usize,
    successful_records: usize,
}

/// The counters as mathematics.
pub struct StatsView {
    pub total_lines: nat,
    pub error_count: nat,
    pub successful_records: nat,
}

impl StatsView {
    /// The counters before the first line.
    pub open spec fn zero() -> StatsView {
        StatsView { total_lines: 0, error_count: 0, successful_records: 0 }
    }

    /// The counters after one line more, by what became of it: every line
    /// counts as a line; one that did not parse as an error, an accepted
    /// record as a success, and any other as nothing else.
    pub open spec fn step(self, outcome: OutcomeView) -> StatsView {
        StatsView {
            total_lines: self.total_lines + 1,
            error_count: if outcome is ParseError {
                self.error_count + 1
            } else {
                self.error_count
            },
            successful_records: if outcome is Accepted {
                self.successful_records + 1
            } else {
                self.successful_records
            },
        }
    }

    /// Errors and successes are lines, and no line is both.
    pub open spec fn well_formed(self) -> bool {
        self.error_count + self.successful_records <= self.total_lines
    }
}

/// The counters after a run of lines with these outcomes.
pub open spec fn tally(outcomes: Seq<OutcomeView>) -> StatsView
    decreases outcomes.len(),
{
    if outcomes.len() == 0 {
        StatsView::zero()
    } else {
        tally(outcomes.drop_last()).step(outcomes.last())
    }
}

/// The counter of lines is the number of outcomes tallied.
pub proof fn lemma_tally_counts_lines(outcomes: Seq<OutcomeView>)
    ensures
        tally(outcomes).total_lines == outcomes.len(),
    decreases outcomes.len(),
{
    if outcomes.len() > 0 {
        lemma_tally_counts_lines(outcomes.drop_last());
    }
}

impl View for ProcessingStats {
    type V = StatsView;

    closed spec fn view(&self) -> StatsView {
        StatsView {
            total_lines: self.total_lines as nat,
            error_count: self.error_count as nat,
            successful_records: self.successful_records as nat,
        }
    }
}

impl ProcessingStats {
    /// Held by every value: errors and successes are lines, and no line is both.
    #[verifier::type_invariant]
    spec fn counts_lines(self) -> bool {
        self@.well_formed()
    }

    /// The counters before the first line.
    pub fn new() -> (stats: ProcessingStats)
        ensures
            stats@ == StatsView::zero(),
    {
        ProcessingStats { total_lines: 0, error_count: 0, successful_records: 0 }
    }

    /// The number of lines taken in.
    pub fn total_lines(&self) -> (n: usize)
        ensures
            n == self@.total_lines,
    {
        self.total_lines
    }

    /// The number of lines that did not parse.
    pub fn error_count(&self) -> (n: usize)
        ensures
            n == self@.error_count,
    {
        self.error_count
    }

    /// The number of records that were accepted.
    pub fn successful_records(&self) -> (n: usize)
        ensures
            n == self@.successful_records,
    {
        self.successful_records
    }

    /// Counts one line by what became of it.
    pub fn record(&mut self, outcome: &Outcome)
        requires
            old(self)@.total_lines < usize::MAX,
        ensures
            final(self)@ == old(self)@.step(outcome@),
            final(self)@.well_formed(),
    {
        proof {
            use_type_invariant(&*self);
        }
        self.total_lines = self.total_lines + 1;
        match outcome {
            Outcome::ParseError(_) => {
                self.error_count = self.error_count + 1;
            },
            Outcome::Accepted(_) => {
                self.successful_records = self.successful_records + 1;
            },
            _ => {},
        }
    }

    /// The summary of the run.
    pub fn summary(&self) -> (r: String)
        ensures
            r@ == summary_text(
                self@.total_lines,
                self@.error_count,
                self@.successful_records,
            ),
    {
        summary(self.total_lines, self.error_count, self.successful_records)
    }
}

impl Default for ProcessingStats {
    fn default() -> (stats: ProcessingStats)
        ensures
            stats@ == StatsView::zero(),
    {
        ProcessingStats::new()
    }
}

} // verus!
