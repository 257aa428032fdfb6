//! What becomes of one input line: it is parsed, and a record that has a
//! price is scored by its average.
//!
//! The average itself is floating-point arithmetic, which this library does
//! not do. It comes from the caller: either as a value, to [`score`], or as a
//! function `mean` from the rates of a record to their average, which
//! [`parse_and_score`] calls for each record that has a price.

use vstd::prelude::*;
use crate::json::{document_of, is_blank, parse_document, Json};
use crate::record::{Average, AverageView, InputRecord, OutputRecord, OutputView, RecordView};
use crate::shape::{decode_record, ShapeError};
use crate::threshold::{at_most_threshold, within_threshold};

verus! {

/// Why a line did not parse.
#[derive(Debug, PartialEq, Eq)]
pub enum ParseFailure {
    /// The line is not one JSON document; the parser's message.
    Syntax(String),
    /// The line is JSON of another shape than a record's.
    Shape(ShapeError),
}

/// A parse failure as mathematics.
pub enum FailureView {
    Syntax(Seq<char>),
    Shape(ShapeError),
}

impl View for ParseFailure {
    type V = FailureView;

    open spec fn view(&self) -> FailureView {
        match self {
            ParseFailure::Syntax(message) => FailureView::Syntax(message@),
            ParseFailure::Shape(error) => FailureView::Shape(*error),
        }
    }
}

impl FailureView {
    /// The failure in words.
    pub open spec fn description(self) -> Seq<char> {
        match self {
            FailureView::Syntax(message) => message,
            FailureView::Shape(error) => error.spec_description(),
        }
    }
}

impl ParseFailure {
    /// The failure in words.
    pub fn description(&self) -> (r: String)
        ensures
            r@ == self@.description(),
    {
        match self {
            ParseFailure::Syntax(message) => message.clone(),
            ParseFailure::Shape(error) => error.description(),
        }
    }
}

/// The record that a line holds, or why it holds none.
pub open spec fn parsed_line(line: Seq<char>) -> Result<RecordView, FailureView> {
    match document_of(line) {
        Err(message) => Err(FailureView::Syntax(message)),
        Ok(document) => match decode_record(document) {
            Ok(record) => Ok(record),
            Err(error) => Err(FailureView::Shape(error)),
        },
    }
}

/// The record in what the JSON parser made of a line.
pub fn read_record(document: Result<Json, String>) -> (r: Result<InputRecord, ParseFailure>)
    ensures
        match document {
            Err(message) => r matches Err(failure) && failure@ == FailureView::Syntax(message@),
            Ok(json) => match decode_record(json) {
                Ok(model) => r matches Ok(record) && record@ == model,
                Err(error) => r matches Err(failure) && failure@ == FailureView::Shape(error),
            },
        },
{
    match document {
        Err(message) => Err(ParseFailure::Syntax(message)),
        Ok(json) => match InputRecord::from_json(&json) {
            Ok(record) => Ok(record),
            Err(error) => Err(ParseFailure::Shape(error)),
        },
    }
}

/// Parses one line. A blank line holds no JSON, so it fails with a syntax
/// error.
pub fn parse_line(line: &str) -> (r: Result<InputRecord, ParseFailure>)
    ensures
        match parsed_line(line@) {
            Ok(model) => r matches Ok(record) && record@ == model,
            Err(failure) => r matches Err(found) && found@ == failure,
        },
        is_blank(line@) ==> r matches Err(ParseFailure::Syntax(_)),
{
    read_record(parse_document(line))
}

/// What became of one line.
#[derive(Debug, PartialEq, Eq)]
pub enum Outcome {
    /// The line did not parse.
    ParseError(ParseFailure),
    /// The record has no price at all.
    NoRate,
    /// The record's average is at most thirty.
    Accepted(OutputRecord),
    /// The record's average is not at most thirty.
    Rejected,
}

/// An outcome as mathematics.
pub enum OutcomeView {
    ParseError(FailureView),
    NoRate,
    Accepted(OutputView),
    Rejected,
}

impl View for Outcome {
    type V = OutcomeView;

    open spec fn view(&self) -> OutcomeView {
        match self {
            Outcome::ParseError(failure) => OutcomeView::ParseError(failure@),
            Outcome::NoRate => OutcomeView::NoRate,
            Outcome::Accepted(record) => OutcomeView::Accepted(record@),
            Outcome::Rejected => OutcomeView::Rejected,
        }
    }
}

/// The outcome for a parsed record with the average of its rates. A record
/// without a price has no average: whatever is handed in for it is not looked
/// at.
pub open spec fn scored(record: RecordView, average: AverageView) -> OutcomeView {
    if record.rates().len() == 0 {
        OutcomeView::NoRate
    } else if at_most_threshold(average.bits) {
        OutcomeView::Accepted(
            OutputView {
                name: record.name,
                billing_code: record.billing_code,
                avg_rate: average,
            },
        )
    } else {
        OutcomeView::Rejected
    }
}

/// Decides on a parsed record by the average of its rates.
pub fn score(record: InputRecord, average: Average) -> (outcome: Outcome)
    ensures
        outcome@ == scored(record@, average@),
{
    if !record.has_price() {
        Outcome::NoRate
    } else if within_threshold(average.bits) {
        Outcome::Accepted(
            OutputRecord { name: record.name, billing_code: record.billing_code, avg_rate: average },
        )
    } else {
        Outcome::Rejected
    }
}

/// Whether `outcome` is what becomes of a parsed record when `mean` averages
/// its rates. A record without a price has no average and one outcome; any
/// other has the outcome that [`scored`] gives for an average that `mean` may
/// return for the record's rates.
pub open spec fn is_score_with<F: Fn(Vec<u64>) -> Average>(
    record: RecordView,
    mean: F,
    outcome: OutcomeView,
) -> bool {
    if record.rates().len() == 0 {
        outcome == OutcomeView::NoRate
    } else {
        exists|rates: Vec<u64>, average: Average|
            rates@ == record.rates() && #[trigger] call_ensures(mean, (rates,), average)
                && outcome == scored(record, average@)
    }
}

/// Whether `outcome` is what becomes of `line` when `mean` averages the
/// rates: a parse error for a line that does not parse, as a blank line does
/// not, and else the score of the record in it.
pub open spec fn is_outcome_with<F: Fn(Vec<u64>) -> Average>(
    line: Seq<char>,
    mean: F,
    outcome: OutcomeView,
) -> bool {
    &&& match parsed_line(line) {
        Err(failure) => outcome == OutcomeView::ParseError(failure),
        Ok(record) => is_score_with(record, mean, outcome),
    }
    &&& is_blank(line) ==> outcome matches OutcomeView::ParseError(FailureView::Syntax(_))
}

/// Parses one line and scores the record in it. `mean` is asked for the
/// average of the record's rates where it has any, and not otherwise.
pub fn parse_and_score<F: Fn(Vec<u64>) -> Average>(line: &str, mean: F) -> (outcome: Outcome)
    requires
        forall|rates: Vec<u64>| rates@.len() > 0 ==> call_requires(mean, (rates,)),
    ensures
        is_outcome_with(line@, mean, outcome@),
{
    match parse_line(line) {
        Err(failure) => Outcome::ParseError(failure),
        Ok(record) => {
            if record.has_price() {
                let average = mean(record.rates());
                score(record, average)
            } else {
                Outcome::NoRate
            }
        },
    }
}

} // verus!
