//! One run over an input. A [`Run`] takes the lines in turn: it counts each,
//! collects the CSV rows of the accepted records, and says what to print.
//! [`process_records`] does the same for an input that is held whole.

use vstd::prelude::*;
use crate::pipeline::{is_outcome_with, parse_and_score, parsed_line, Outcome, OutcomeView};
use crate::record::{Average, OutputView};
use crate::report::{diagnostic, diagnostic_text, summary_text};
use crate::sink::{
    csv_bytes, emit_refused, header_refused, row_refused, Sink, SinkError, SinkView,
};
use crate::stats::{lemma_tally_counts_lines, tally, ProcessingStats, StatsView};

verus! {

/// The records accepted in a run, in the order of their lines.
pub open spec fn accepted(outcomes: Seq<OutcomeView>) -> Seq<OutputView>
    decreases outcomes.len(),
{
    if outcomes.len() == 0 {
        Seq::empty()
    } else {
        match outcomes.last() {
            OutcomeView::Accepted(record) => accepted(outcomes.drop_last()).push(record),
            _ => accepted(outcomes.drop_last()),
        }
    }
}

/// The diagnostics of a run, in the order of their lines: one for each line
/// that did not parse, with the line's number, counted from one.
pub open spec fn diagnostics_of(outcomes: Seq<OutcomeView>) -> Seq<Seq<char>>
    decreases outcomes.len(),
{
    if outcomes.len() == 0 {
        Seq::empty()
    } else {
        match outcomes.last() {
            OutcomeView::ParseError(failure) => diagnostics_of(outcomes.drop_last()).push(
                diagnostic_text(outcomes.len(), failure.description()),
            ),
            _ => diagnostics_of(outcomes.drop_last()),
        }
    }
}

/// Whether `outcomes` is what becomes of `lines`, line by line, when `mean`
/// averages the rates.
pub open spec fn is_run_of<F: Fn(Vec<u64>) -> Average>(
    lines: Seq<String>,
    mean: F,
    outcomes: Seq<OutcomeView>,
) -> bool {
    &&& outcomes.len() == lines.len()
    &&& forall|i: int|
        0 <= i < lines.len() ==> is_outcome_with(lines[i]@, mean, #[trigger] outcomes[i])
}

/// Whether the encoder refuses what an outcome puts into the CSV output: the
/// row of an accepted record, or the header row that has to go in before it.
/// No other outcome puts anything there.
pub open spec fn outcome_refused(header_written: bool, outcome: OutcomeView) -> bool {
    outcome matches OutcomeView::Accepted(record) && emit_refused(header_written, record)
}

/// Whether the encoder refuses the CSV output of a run with these outcomes:
/// the header row, or the row of an accepted record.
pub open spec fn output_refused(outcomes: Seq<OutcomeView>) -> bool {
    header_refused() || exists|i: int|
        0 <= i < accepted(outcomes).len() && row_refused(#[trigger] accepted(outcomes)[i])
}

/// The state of a run.
pub struct Run {
    stats: ProcessingStats,
    sink: Sink,
    outcomes: Ghost<Seq<OutcomeView>>,
}

/// A run as mathematics.
pub struct RunView {
    /// What became of each line so far.
    pub outcomes: Seq<OutcomeView>,
    pub stats: StatsView,
    pub sink: SinkView,
}

impl RunView {
    /// The counters are the tally of the outcomes, so the lines counted are
    /// the lines taken in; the sink holds the rows of the accepted records,
    /// and no other.
    pub open spec fn well_formed(self) -> bool {
        &&& self.stats == tally(self.outcomes)
        &&& self.sink.well_formed()
        &&& self.sink.rows == accepted(self.outcomes)
    }
}

impl View for Run {
    type V = RunView;

    closed spec fn view(&self) -> RunView {
        RunView { outcomes: self.outcomes@, stats: self.stats@, sink: self.sink@ }
    }
}

impl Run {
    /// A run before its first line.
    pub fn new() -> (run: Run)
        ensures
            run@.well_formed(),
            run@.outcomes.len() == 0,
            run@.stats == StatsView::zero(),
            !run@.sink.header_written,
            run@.sink.drained.len() == 0,
            run@.sink.pending.len() == 0,
    {
        Run { stats: ProcessingStats::new(), sink: Sink::new(), outcomes: Ghost(Seq::empty()) }
    }

    /// The counters so far.
    pub fn stats(&self) -> (stats: &ProcessingStats)
        ensures
            stats@ == self@.stats,
    {
        &self.stats
    }

    /// The number of CSV bytes held.
    pub fn pending_len(&self) -> (n: usize)
        ensures
            n == self@.sink.pending.len(),
    {
        self.sink.pending_len()
    }

    /// Takes in what became of the next line. The line is counted; the row of
    /// an accepted record goes to the CSV output; for a line that did not
    /// parse the diagnostic to print comes back, with the line's number. It
    /// fails exactly where the encoder refuses what the outcome puts into the
    /// output; the run is then as it was, the line not counted.
    pub fn record(&mut self, outcome: Outcome) -> (r: Result<Option<String>, SinkError>)
        requires
            old(self)@.well_formed(),
            old(self)@.stats.total_lines < usize::MAX,
        ensures
            final(self)@.well_formed(),
            match r {
                Ok(printed) => {
                    &&& !outcome_refused(old(self)@.sink.header_written, outcome@)
                    &&& final(self)@.outcomes == old(self)@.outcomes.push(outcome@)
                    &&& final(self)@.stats == old(self)@.stats.step(outcome@)
                    &&& final(self)@.sink.drained == old(self)@.sink.drained
                    &&& match outcome@ {
                        OutcomeView::ParseError(failure) => printed matches Some(text) && text@
                            == diagnostic_text(
                            old(self)@.stats.total_lines + 1,
                            failure.description(),
                        ),
                        _ => printed is None,
                    }
                },
                Err(e) => {
                    &&& outcome_refused(old(self)@.sink.header_written, outcome@)
                    &&& e == SinkError::Encoding
                    &&& final(self)@ == old(self)@
                },
            },
    {
        if let Outcome::Accepted(record) = &outcome {
            match self.sink.emit(record) {
                Err(e) => { return Err(e); },
                Ok(_) => {},
            }
        }
        self.stats.record(&outcome);
        proof {
            let ghost before = self.outcomes@;
            self.outcomes@ = before.push(outcome@);
            assert(before.push(outcome@).drop_last() =~= before);
        }
        match &outcome {
            Outcome::ParseError(failure) => {
                let description = failure.description();
                Ok(Some(diagnostic(self.stats.total_lines(), description.as_str())))
            },
            _ => Ok(None),
        }
    }

    /// Takes in the next line: parses it, has `mean` average the rates of a
    /// record with a price, and records what became of it, as [`Run::record`]
    /// does. A blank line does not parse, and is counted as such. It fails
    /// exactly where the line holds a record that is accepted and the encoder
    /// refuses what that puts into the output; the run is then as it was.
    pub fn take_line<F: Fn(Vec<u64>) -> Average>(&mut self, line: &str, mean: F) -> (r: Result<
        Option<String>,
        SinkError,
    >)
        requires
            old(self)@.well_formed(),
            old(self)@.stats.total_lines < usize::MAX,
            forall|rates: Vec<u64>| rates@.len() > 0 ==> call_requires(mean, (rates,)),
        ensures
            final(self)@.well_formed(),
            match r {
                Ok(printed) => {
                    &&& final(self)@.outcomes.len() == old(self)@.outcomes.len() + 1
                    &&& final(self)@.outcomes.drop_last() == old(self)@.outcomes
                    &&& is_outcome_with(line@, mean, final(self)@.outcomes.last())
                    &&& !outcome_refused(
                        old(self)@.sink.header_written,
                        final(self)@.outcomes.last(),
                    )
                    &&& final(self)@.stats == old(self)@.stats.step(final(self)@.outcomes.last())
                    &&& final(self)@.sink.drained == old(self)@.sink.drained
                    &&& match final(self)@.outcomes.last() {
                        OutcomeView::ParseError(failure) => printed matches Some(text) && text@
                            == diagnostic_text(
                            old(self)@.stats.total_lines + 1,
                            failure.description(),
                        ),
                        _ => printed is None,
                    }
                },
                Err(e) => {
                    &&& exists|outcome: OutcomeView| #[trigger]
                        is_outcome_with(line@, mean, outcome) && outcome_refused(
                            old(self)@.sink.header_written,
                            outcome,
                        )
                    &&& parsed_line(line@) matches Ok(record) && record.rates().len() > 0
                    &&& e == SinkError::Encoding
                    &&& final(self)@ == old(self)@
                },
            },
    {
        let outcome = parse_and_score(line, mean);
        let ghost taken = outcome@;
        let r = self.record(outcome);
        proof {
            if r is Ok {
                assert(old(self)@.outcomes.push(taken).drop_last() =~= old(self)@.outcomes);
            } else {
                assert(is_outcome_with(line@, mean, taken));
            }
        }
        r
    }

    /// Hands out the CSV bytes held.
    pub fn drain(&mut self) -> (bytes: Vec<u8>)
        requires
            old(self)@.well_formed(),
        ensures
            final(self)@.well_formed(),
            bytes@ == old(self)@.sink.pending,
            final(self)@ == (RunView {
                sink: SinkView {
                    drained: old(self)@.sink.drained + old(self)@.sink.pending,
                    pending: Seq::empty(),
                    ..old(self)@.sink
                },
                ..old(self)@
            }),
    {
        self.sink.drain()
    }

    /// Ends the CSV output and hands out the bytes held. With what was handed
    /// out before, they are the header row and the rows of the accepted
    /// records, in the order of their lines. It fails exactly where the header
    /// row has yet to go in and the encoder refuses it; the run is then as it
    /// was.
    pub fn finish(&mut self) -> (r: Result<Vec<u8>, SinkError>)
        requires
            old(self)@.well_formed(),
        ensures
            final(self)@.well_formed(),
            match r {
                Ok(bytes) => {
                    &&& !header_refused()
                    &&& old(self)@.sink.drained + bytes@ == csv_bytes(accepted(old(self)@.outcomes))
                    &&& final(self)@.outcomes == old(self)@.outcomes
                    &&& final(self)@.stats == old(self)@.stats
                    &&& final(self)@.sink.drained == csv_bytes(accepted(old(self)@.outcomes))
                    &&& final(self)@.sink.pending.len() == 0
                },
                Err(e) => {
                    &&& !old(self)@.sink.header_written && header_refused()
                    &&& e == SinkError::Encoding
                    &&& final(self)@ == old(self)@
                },
            },
    {
        self.sink.finish()
    }

    /// The summary of the run so far.
    pub fn summary(&self) -> (r: String)
        ensures
            r@ == summary_text(
                self@.stats.total_lines,
                self@.stats.error_count,
                self@.stats.successful_records,
            ),
    {
        self.stats.summary()
    }
}

/// What a finished run leaves: the CSV output, the diagnostics in the order
/// of their lines, the summary, and the counters.
pub struct Report {
    pub csv: Vec<u8>,
    pub diagnostics: Vec<String>,
    pub summary: String,
    pub stats: ProcessingStats,
}

/// A report as mathematics.
pub struct ReportView {
    pub csv: Seq<u8>,
    pub diagnostics: Seq<Seq<char>>,
    pub summary: Seq<char>,
    pub stats: StatsView,
}

impl View for Report {
    type V = ReportView;

    open spec fn view(&self) -> ReportView {
        ReportView {
            csv: self.csv@,
            diagnostics: self.diagnostics@.map_values(|text: String| text@),
            summary: self.summary@,
            stats: self.stats@,
        }
    }
}

/// The report of a run in which this became of the lines: the header row and
/// the rows of the accepted records, the diagnostics of the lines that did
/// not parse, and the tally with its summary.
pub open spec fn report_of(outcomes: Seq<OutcomeView>) -> ReportView {
    ReportView {
        csv: csv_bytes(accepted(outcomes)),
        diagnostics: diagnostics_of(outcomes),
        summary: summary_text(
            tally(outcomes).total_lines,
            tally(outcomes).error_count,
            tally(outcomes).successful_records,
        ),
        stats: tally(outcomes),
    }
}

/// Runs over all the lines of an input. Every line is counted, a blank one
/// too; a line that does not parse does not stop the run. The run fails
/// exactly where the encoder refuses the header row or the row of an accepted
/// record: it then ends at the line whose record was to go into the output,
/// or, where no record was accepted, after the last line.
pub fn process_records<F: Fn(Vec<u64>) -> Average>(lines: &Vec<String>, mean: F) -> (r: Result<
    Report,
    SinkError,
>)
    requires
        forall|rates: Vec<u64>| rates@.len() > 0 ==> call_requires(mean, (rates,)),
    ensures
        match r {
            Ok(report) => {
                &&& report@.stats.total_lines == lines.len()
                &&& exists|outcomes: Seq<OutcomeView>| #[trigger]
                    is_run_of(lines@, mean, outcomes) && report@ == report_of(outcomes)
                        && !output_refused(outcomes)
            },
            Err(e) => {
                &&& e == SinkError::Encoding
                &&& exists|taken: int, outcomes: Seq<OutcomeView>|
                    0 <= taken <= lines.len() && #[trigger] is_run_of(
                        lines@.take(taken),
                        mean,
                        outcomes,
                    ) && output_refused(outcomes)
            },
        },
{
    let mut run = Run::new();
    let mut diagnostics: Vec<String> = Vec::new();
    let mut i: usize = 0;
    while i < lines.len()
        invariant
            i <= lines.len(),
            forall|rates: Vec<u64>| rates@.len() > 0 ==> call_requires(mean, (rates,)),
            run@.well_formed(),
            is_run_of(lines@.take(i as int), mean, run@.outcomes),
            diagnostics@.map_values(|text: String| text@) == diagnostics_of(run@.outcomes),
            run@.sink.drained.len() == 0,
        decreases lines.len() - i,
    {
        proof {
            lemma_tally_counts_lines(run@.outcomes);
        }
        let ghost before = run@.outcomes;
        let ghost header_written = run@.sink.header_written;
        match run.take_line(lines[i].as_str(), &mean) {
            Err(e) => {
                proof {
                    let refused = choose|outcome: OutcomeView| #[trigger]
                        is_outcome_with(lines[i as int]@, &mean, outcome) && outcome_refused(
                            header_written,
                            outcome,
                        );
                    assert(is_outcome_with(lines[i as int]@, mean, refused));
                    let ended = before.push(refused);
                    assert(ended.drop_last() =~= before);
                    assert forall|k: int| 0 <= k < i + 1 implies is_outcome_with(
                        lines@.take(i + 1)[k]@,
                        mean,
                        #[trigger] ended[k],
                    ) by {
                        if k < i {
                            assert(lines@.take(i + 1)[k] == lines@.take(i as int)[k]);
                        }
                    }
                    assert(row_refused(accepted(ended)[accepted(before).len() as int])
                        || header_refused());
                    assert(is_run_of(lines@.take(i + 1), mean, ended) && output_refused(ended));
                }
                return Err(e);
            },
            Ok(printed) => match printed {
                Some(text) => {
                    diagnostics.push(text);
                },
                None => {},
            },
        }
        proof {
            assert forall|k: int| 0 <= k < i + 1 implies is_outcome_with(
                lines@.take(i + 1)[k]@,
                mean,
                #[trigger] run@.outcomes[k],
            ) by {
                if k < i {
                    assert(run@.outcomes[k] == before[k]);
                }
            }
        }
        i += 1;
    }
    let rest = match run.finish() {
        Err(e) => { return Err(e); },
        Ok(bytes) => bytes,
    };
    proof {
        assert(lines@.take(i as int) =~= lines@);
        lemma_tally_counts_lines(run@.outcomes);
    }
    let summary = run.summary();
    let Run { stats, sink: _, outcomes: _ } = run;
    Ok(Report { csv: rest, diagnostics, summary, stats })
}

} // verus!
