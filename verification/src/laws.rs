//! What holds of every run, stated over the models of the other modules.

use vstd::prelude::*;
use crate::json::is_blank;
use crate::pipeline::{is_outcome_with, is_score_with, scored, FailureView, OutcomeView};
use crate::record::{lemma_no_rates, Average, AverageView, RecordView};
use crate::run::{accepted, is_run_of, output_refused, report_of};
use crate::sink::csv_bytes;
use crate::stats::{lemma_tally_counts_lines, tally, StatsView};

verus! {

/// The number of lines, among those with these outcomes, that parsed and
/// gave no row: records without a price, and records that were rejected.
pub open spec fn skipped(outcomes: Seq<OutcomeView>) -> nat
    decreases outcomes.len(),
{
    if outcomes.len() == 0 {
        0
    } else if outcomes.last() is NoRate || outcomes.last() is Rejected {
        skipped(outcomes.drop_last()) + 1
    } else {
        skipped(outcomes.drop_last())
    }
}

/// Whether what `mean` returns is determined by the rates it is given.
pub open spec fn is_function<F: Fn(Vec<u64>) -> Average>(mean: F) -> bool {
    forall|first: Vec<u64>, second: Vec<u64>, one: Average, other: Average|
        first@ == second@ && #[trigger] call_ensures(mean, (first,), one) && #[trigger] call_ensures(
            mean,
            (second,),
            other,
        ) ==> one@ == other@
}

/// After a run the counter of lines is the number of lines of the input,
/// whatever became of each. A blank line is one of them: it does not parse,
/// and is an error.
pub proof fn lemma_every_line_is_counted<F: Fn(Vec<u64>) -> Average>(
    lines: Seq<String>,
    mean: F,
    outcomes: Seq<OutcomeView>,
)
    requires
        is_run_of(lines, mean, outcomes),
    ensures
        tally(outcomes).total_lines == lines.len(),
        forall|i: int|
            0 <= i < lines.len() && is_blank(lines[i]@) ==> #[trigger] outcomes[i] is ParseError,
{
    lemma_tally_counts_lines(outcomes);
}

/// Every line is an error, a success, or a line that parsed and gave no row,
/// and the successes are the records accepted.
pub proof fn lemma_counters_balance(outcomes: Seq<OutcomeView>)
    ensures
        tally(outcomes).total_lines == tally(outcomes).error_count + skipped(outcomes) + tally(
            outcomes,
        ).successful_records,
        tally(outcomes).successful_records == accepted(outcomes).len(),
        tally(outcomes).well_formed(),
    decreases outcomes.len(),
{
    if outcomes.len() > 0 {
        lemma_counters_balance(outcomes.drop_last());
    }
}

/// The counters after two stretches of lines are those after the first,
/// stepped through the second.
proof fn lemma_tally_concat(first: Seq<OutcomeView>, second: Seq<OutcomeView>)
    ensures
        tally(first + second).total_lines == tally(first).total_lines + tally(second).total_lines,
        tally(first + second).error_count == tally(first).error_count + tally(second).error_count,
        tally(first + second).successful_records == tally(first).successful_records + tally(
            second,
        ).successful_records,
        accepted(first + second) == accepted(first) + accepted(second),
    decreases second.len(),
{
    if second.len() == 0 {
    } else {
        assert((first + second).drop_last() =~= first + second.drop_last());
        lemma_tally_concat(first, second.drop_last());
    }
}

/// A line that does not parse, wherever it stands in the input, adds one to
/// the errors and one to the lines, and nothing else: the lines after it are
/// counted, and the rows are written, as if it were not there.
pub proof fn lemma_failed_line_counts_once(
    before: Seq<OutcomeView>,
    failure: FailureView,
    after: Seq<OutcomeView>,
)
    ensures
        tally(before.push(OutcomeView::ParseError(failure)) + after) == (StatsView {
            total_lines: tally(before + after).total_lines + 1,
            error_count: tally(before + after).error_count + 1,
            successful_records: tally(before + after).successful_records,
        }),
        accepted(before.push(OutcomeView::ParseError(failure)) + after) == accepted(before + after),
{
    let failed = before.push(OutcomeView::ParseError(failure));
    assert(failed.drop_last() =~= before);
    lemma_tally_concat(failed, after);
    lemma_tally_concat(before, after);
}

/// A record whose groups are all empty, one without groups among them, has
/// no price: it is neither accepted nor rejected, whatever stands for its
/// average. Its line adds one to the lines and nothing to the errors or the
/// successes, and gives no row.
pub proof fn lemma_unpriced_record_leaves_no_trace(
    before: Seq<OutcomeView>,
    record: RecordView,
    average: AverageView,
)
    requires
        forall|i: int| 0 <= i < record.groups.len() ==> (#[trigger] record.groups[i]).len() == 0,
    ensures
        scored(record, average) == OutcomeView::NoRate,
        tally(before.push(scored(record, average))) == (StatsView {
            total_lines: tally(before).total_lines + 1,
            ..tally(before)
        }),
        accepted(before.push(scored(record, average))) == accepted(before),
{
    lemma_no_rates(record.groups);
    assert(before.push(OutcomeView::NoRate).drop_last() =~= before);
}

/// How the rates of a record are grouped is immaterial: two records of the
/// same name and billing code that hold the same rates in the same order end
/// alike, whatever averages the rates.
pub proof fn lemma_grouping_is_immaterial<F: Fn(Vec<u64>) -> Average>(
    first: RecordView,
    second: RecordView,
    mean: F,
    outcome: OutcomeView,
)
    requires
        first.name == second.name,
        first.billing_code == second.billing_code,
        first.rates() == second.rates(),
    ensures
        is_score_with(first, mean, outcome) <==> is_score_with(second, mean, outcome),
        forall|average: AverageView| scored(first, average) == scored(second, average),
{
}

/// With a mean that is a function of the rates, a line has one outcome.
pub proof fn lemma_one_outcome<F: Fn(Vec<u64>) -> Average>(
    line: Seq<char>,
    mean: F,
    first: OutcomeView,
    second: OutcomeView,
)
    requires
        is_function(mean),
        is_outcome_with(line, mean, first),
        is_outcome_with(line, mean, second),
    ensures
        first == second,
{
}

/// The output is determined by the input: two runs over the same lines, with
/// a mean that is a function of the rates, end alike line by line, and their
/// reports are the same: the same counters, the same diagnostics, and the
/// same CSV, byte for byte. Whether the encoder refuses the output is the
/// same for both.
pub proof fn lemma_same_input_same_output<F: Fn(Vec<u64>) -> Average>(
    lines: Seq<String>,
    again: Seq<String>,
    mean: F,
    first: Seq<OutcomeView>,
    second: Seq<OutcomeView>,
)
    requires
        is_function(mean),
        again.len() == lines.len(),
        forall|i: int| 0 <= i < lines.len() ==> (#[trigger] again[i])@ == lines[i]@,
        is_run_of(lines, mean, first),
        is_run_of(again, mean, second),
    ensures
        first == second,
        report_of(first) == report_of(second),
        report_of(first).csv == csv_bytes(accepted(second)),
        output_refused(first) == output_refused(second),
{
    assert forall|i: int| 0 <= i < first.len() implies first[i] == second[i] by {
        lemma_one_outcome(lines[i]@, mean, first[i], second[i]);
    }
    assert(first =~= second);
}

} // verus!
