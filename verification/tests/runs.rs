use rate_filter::pipeline::{parse_and_score, score, Outcome, ParseFailure};
use rate_filter::record::{
    Average, InputRecord, NegotiatedPrice, NegotiatedRate, OutputRecord,
};
use rate_filter::shape::{Field, ShapeError};
use rate_filter::run::{process_records, Run};
use rate_filter::stats::ProcessingStats;

const LINE_A: &str = "{\"name\":\"A\",\"billing_code\":\"100\",\"negotiated_rates\":[{\"negotiated_prices\":[{\"negotiated_rate\":10},{\"negotiated_rate\":20}]}]}";
const LINE_B: &str = "{\"name\":\"B\",\"billing_code\":\"200\",\"negotiated_rates\":[{\"negotiated_prices\":[{\"negotiated_rate\":50}]}]}";

/// The arithmetic mean of the rates, as the caller of the library computes it.
fn average(rates: Vec<u64>) -> Average {
    let mut total = 0.0;
    for bits in &rates {
        total += f64::from_bits(*bits);
    }
    let mean = total / rates.len() as f64;
    Average { bits: mean.to_bits(), text: format!("{}", mean) }
}

fn outcome_of(line: &str) -> Outcome {
    parse_and_score(line, average)
}

struct Finished {
    csv: String,
    printed: Vec<String>,
    total_lines: usize,
    error_count: usize,
    successful_records: usize,
}

fn process(lines: &[&str]) -> Finished {
    let lines: Vec<String> = lines.iter().map(|line| line.to_string()).collect();
    let report = process_records(&lines, average).unwrap();
    let mut printed = report.diagnostics;
    printed.push(report.summary);
    Finished {
        csv: String::from_utf8(report.csv).unwrap(),
        printed,
        total_lines: report.stats.total_lines(),
        error_count: report.stats.error_count(),
        successful_records: report.stats.successful_records(),
    }
}

fn grouped(groups: &[&[f64]]) -> InputRecord {
    InputRecord {
        name: "N".to_string(),
        billing_code: "C".to_string(),
        negotiated_rates: groups
            .iter()
            .map(|group| NegotiatedRate {
                negotiated_prices: group
                    .iter()
                    .map(|rate| NegotiatedPrice { negotiated_rate: rate.to_bits() })
                    .collect(),
            })
            .collect(),
    }
}

#[test]
fn three_lines_end_to_end() {
    let done = process(&[LINE_A, LINE_B, "not valid json"]);
    assert_eq!(done.csv, "name,billing_code,avg_rate\nA,100,15\n");
    assert_eq!(
        done.printed,
        vec![
            "Error parsing line 3: expected ident at line 1 column 2".to_string(),
            "\nProcessing Summary:\nTotal lines processed: 3\nParsing errors: 1\nRecords with avg_rate <= 30: 1\n".to_string(),
        ]
    );
    assert_eq!(done.total_lines, 3);
    assert_eq!(done.error_count, 1);
    assert_eq!(done.successful_records, 1);
}

#[test]
fn rows_keep_the_order_of_their_lines() {
    let c = "{\"name\":\"C\",\"billing_code\":\"300\",\"negotiated_rates\":[{\"negotiated_prices\":[{\"negotiated_rate\":30}]}]}";
    let d = "{\"name\":\"D, Inc\",\"billing_code\":\"400\",\"negotiated_rates\":[{\"negotiated_prices\":[{\"negotiated_rate\":0.5},{\"negotiated_rate\":1}]},{\"negotiated_prices\":[{\"negotiated_rate\":0}]}]}";
    let done = process(&[c, LINE_B, d, LINE_A]);
    assert_eq!(
        done.csv,
        "name,billing_code,avg_rate\nC,300,30\n\"D, Inc\",400,0.5\nA,100,15\n"
    );
    assert_eq!((done.total_lines, done.error_count, done.successful_records), (4, 0, 3));
}

#[test]
fn empty_input_gives_the_header_and_zero_counters() {
    let done = process(&[]);
    assert_eq!(done.csv, "name,billing_code,avg_rate\n");
    assert_eq!(
        done.printed,
        vec!["\nProcessing Summary:\nTotal lines processed: 0\nParsing errors: 0\nRecords with avg_rate <= 30: 0\n".to_string()]
    );
}

#[test]
fn blank_lines_count_as_errors() {
    let done = process(&["", LINE_A, "   ", ""]);
    assert_eq!(done.total_lines, 4);
    assert_eq!(done.error_count, 3);
    assert_eq!(done.successful_records, 1);
    assert_eq!(done.csv, "name,billing_code,avg_rate\nA,100,15\n");
    assert_eq!(done.printed[0], "Error parsing line 1: EOF while parsing a value at line 1 column 0");
    assert_eq!(done.printed[1], "Error parsing line 3: EOF while parsing a value at line 1 column 3");
    assert_eq!(done.printed[2], "Error parsing line 4: EOF while parsing a value at line 1 column 0");
}

#[test]
fn a_bad_line_does_not_stop_the_run() {
    let with = process(&[LINE_A, "{\"name\":1}", LINE_B, LINE_A]);
    let without = process(&[LINE_A, LINE_B, LINE_A]);
    assert_eq!(with.csv, without.csv);
    assert_eq!(with.csv, "name,billing_code,avg_rate\nA,100,15\nA,100,15\n");
    assert_eq!(with.total_lines, without.total_lines + 1);
    assert_eq!(with.error_count, without.error_count + 1);
    assert_eq!(with.successful_records, without.successful_records);
    assert_eq!(with.printed[0], "Error parsing line 2: invalid type for field `name`");
}

#[test]
fn records_without_a_price_leave_no_trace() {
    let no_groups = "{\"name\":\"E\",\"billing_code\":\"1\",\"negotiated_rates\":[]}";
    let empty_groups = "{\"name\":\"F\",\"billing_code\":\"2\",\"negotiated_rates\":[{\"negotiated_prices\":[]},{\"negotiated_prices\":[]}]}";
    assert_eq!(outcome_of(no_groups), Outcome::NoRate);
    assert_eq!(outcome_of(empty_groups), Outcome::NoRate);
    let done = process(&[no_groups, empty_groups]);
    assert_eq!(done.csv, "name,billing_code,avg_rate\n");
    assert_eq!((done.total_lines, done.error_count, done.successful_records), (2, 0, 0));
    assert_eq!(done.printed.len(), 1);
}

#[test]
fn same_input_same_bytes() {
    let lines = [LINE_A, "", LINE_B, "{\"name\":\"q\\\"x\",\"billing_code\":\"1,2\",\"negotiated_rates\":[{\"negotiated_prices\":[{\"negotiated_rate\":0.1},{\"negotiated_rate\":0.2}]}]}"];
    let first = process(&lines);
    let second = process(&lines);
    assert_eq!(first.csv.as_bytes(), second.csv.as_bytes());
    assert_eq!(first.printed, second.printed);
    assert_eq!(
        first.csv,
        "name,billing_code,avg_rate\nA,100,15\n\"q\"\"x\",\"1,2\",0.15000000000000002\n"
    );
}

#[test]
fn grouping_does_not_change_the_rates() {
    let one = grouped(&[&[10.0, 20.0, 0.5]]);
    let split = grouped(&[&[10.0], &[], &[20.0, 0.5]]);
    let each = grouped(&[&[10.0], &[20.0], &[0.5], &[]]);
    assert_eq!(one.rates(), split.rates());
    assert_eq!(one.rates(), each.rates());
    let mean = average(one.rates());
    assert_eq!(f64::from_bits(mean.bits), (10.0 + 20.0 + 0.5) / 3.0);
    assert_eq!(score(one, average(split.rates())), score(split, mean));
}

#[test]
fn score_accepts_at_most_thirty() {
    let accepted = score(grouped(&[&[30.0]]), Average { bits: 30.0f64.to_bits(), text: "30".to_string() });
    assert_eq!(
        accepted,
        Outcome::Accepted(OutputRecord {
            name: "N".to_string(),
            billing_code: "C".to_string(),
            avg_rate: Average { bits: 30.0f64.to_bits(), text: "30".to_string() },
        })
    );
    let rejected = score(
        grouped(&[&[30.5]]),
        Average { bits: 30.5f64.to_bits(), text: "30.5".to_string() },
    );
    assert_eq!(rejected, Outcome::Rejected);
}

#[test]
fn score_of_unusual_averages() {
    let nan = Average { bits: f64::NAN.to_bits(), text: "NaN".to_string() };
    assert_eq!(score(grouped(&[&[1.0]]), nan), Outcome::Rejected);
    let huge = Average { bits: f64::INFINITY.to_bits(), text: "inf".to_string() };
    assert_eq!(score(grouped(&[&[1.0]]), huge), Outcome::Rejected);
    let low = Average { bits: f64::NEG_INFINITY.to_bits(), text: "-inf".to_string() };
    assert!(matches!(score(grouped(&[&[1.0]]), low), Outcome::Accepted(_)));
}

#[test]
fn score_without_a_price_ignores_the_average() {
    let low = Average { bits: 1.0f64.to_bits(), text: "1".to_string() };
    assert_eq!(score(grouped(&[]), low), Outcome::NoRate);
    let low = Average { bits: 1.0f64.to_bits(), text: "1".to_string() };
    assert_eq!(score(grouped(&[&[], &[]]), low), Outcome::NoRate);
}

#[test]
fn line_by_line_is_the_run_at_once() {
    let lines = [LINE_A, "", LINE_B, "[]", LINE_A];
    let mut run = Run::new();
    let mut csv = Vec::new();
    let mut printed = Vec::new();
    for line in lines {
        if let Some(text) = run.take_line(line, average).unwrap() {
            printed.push(text);
        }
        csv.extend(run.drain());
    }
    csv.extend(run.finish().unwrap());
    printed.push(run.summary());
    let at_once = process(&lines);
    assert_eq!(String::from_utf8(csv).unwrap(), at_once.csv);
    assert_eq!(printed, at_once.printed);
    assert_eq!(run.stats().total_lines(), 5);
    assert_eq!(run.stats().error_count(), 2);
    assert_eq!(run.stats().successful_records(), 2);
    assert_eq!(
        printed,
        vec![
            "Error parsing line 2: EOF while parsing a value at line 1 column 0".to_string(),
            "Error parsing line 4: invalid type: expected a record object".to_string(),
            "\nProcessing Summary:\nTotal lines processed: 5\nParsing errors: 2\nRecords with avg_rate <= 30: 2\n".to_string(),
        ]
    );
}

#[test]
fn the_mean_is_asked_only_for_priced_records() {
    let refuse = |_rates: Vec<u64>| -> Average { panic!("no average is due") };
    assert_eq!(
        parse_and_score("{\"name\":\"E\",\"billing_code\":\"1\",\"negotiated_rates\":[]}", refuse),
        Outcome::NoRate
    );
    assert!(matches!(parse_and_score("{}", refuse), Outcome::ParseError(_)));
    let seen = std::cell::RefCell::new(Vec::new());
    let watch = |rates: Vec<u64>| -> Average {
        seen.borrow_mut().push(rates.clone());
        average(rates)
    };
    assert!(matches!(parse_and_score(LINE_A, &watch), Outcome::Accepted(_)));
    assert_eq!(parse_and_score(LINE_B, &watch), Outcome::Rejected);
    assert_eq!(
        seen.into_inner(),
        vec![vec![10.0f64.to_bits(), 20.0f64.to_bits()], vec![50.0f64.to_bits()]]
    );
}

#[test]
fn stats_count_by_outcome() {
    let mut stats = ProcessingStats::new();
    assert_eq!((stats.total_lines(), stats.error_count(), stats.successful_records()), (0, 0, 0));
    stats.record(&Outcome::NoRate);
    assert_eq!((stats.total_lines(), stats.error_count(), stats.successful_records()), (1, 0, 0));
    stats.record(&Outcome::Rejected);
    assert_eq!((stats.total_lines(), stats.error_count(), stats.successful_records()), (2, 0, 0));
    stats.record(&Outcome::ParseError(ParseFailure::Syntax("x".to_string())));
    assert_eq!((stats.total_lines(), stats.error_count(), stats.successful_records()), (3, 1, 0));
    stats.record(&Outcome::ParseError(ParseFailure::Shape(ShapeError::MissingField(Field::Name))));
    assert_eq!((stats.total_lines(), stats.error_count(), stats.successful_records()), (4, 2, 0));
    stats.record(&Outcome::Accepted(OutputRecord {
        name: "A".to_string(),
        billing_code: "1".to_string(),
        avg_rate: Average { bits: 0, text: "0".to_string() },
    }));
    assert_eq!((stats.total_lines(), stats.error_count(), stats.successful_records()), (5, 2, 1));
    assert_eq!(
        stats.summary(),
        "\nProcessing Summary:\nTotal lines processed: 5\nParsing errors: 2\nRecords with avg_rate <= 30: 1\n"
    );
}

#[test]
fn stats_default_is_zero() {
    let stats = ProcessingStats::default();
    assert_eq!((stats.total_lines(), stats.error_count(), stats.successful_records()), (0, 0, 0));
}

#[test]
fn run_says_what_to_print() {
    let mut run = Run::new();
    assert_eq!(run.record(Outcome::NoRate), Ok(None));
    assert_eq!(run.record(Outcome::Rejected), Ok(None));
    assert_eq!(
        run.record(Outcome::ParseError(ParseFailure::Syntax("broken".to_string()))),
        Ok(Some("Error parsing line 3: broken".to_string()))
    );
    assert_eq!(run.pending_len(), 0);
    assert_eq!(
        run.record(Outcome::Accepted(OutputRecord {
            name: "A".to_string(),
            billing_code: "1".to_string(),
            avg_rate: Average { bits: 0, text: "0".to_string() },
        })),
        Ok(None)
    );
    assert_eq!(run.pending_len(), 33);
    assert_eq!(run.drain(), b"name,billing_code,avg_rate\nA,1,0\n".to_vec());
    assert_eq!(run.finish(), Ok(Vec::new()));
    assert_eq!(run.stats().total_lines(), 4);
    assert_eq!(
        run.summary(),
        "\nProcessing Summary:\nTotal lines processed: 4\nParsing errors: 1\nRecords with avg_rate <= 30: 1\n"
    );
}
