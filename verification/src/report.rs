//! The texts of a run: the diagnostic for a line that did not parse, and the
//! summary of the counters.

use vstd::prelude::*;
use vstd::string::StringExecFns;

verus! {

/// The character of one decimal digit.
pub open spec fn digit_char(digit: nat) -> char {
    if digit == 0 {
        '0'
    } else if digit == 1 {
        '1'
    } else if digit == 2 {
        '2'
    } else if digit == 3 {
        '3'
    } else if digit == 4 {
        '4'
    } else if digit == 5 {
        '5'
    } else if digit == 6 {
        '6'
    } else if digit == 7 {
        '7'
    } else if digit == 8 {
        '8'
    } else {
        '9'
    }
}

/// A number in decimal, without leading zeros.
pub open spec fn decimal(n: nat) -> Seq<char>
    decreases n,
{
    if n < 10 {
        seq![digit_char(n)]
    } else {
        decimal(n / 10).push(digit_char(n % 10))
    }
}

/// The digit that a character stands for.
pub open spec fn digit_value(c: char) -> nat {
    if c == '1' {
        1
    } else if c == '2' {
        2
    } else if c == '3' {
        3
    } else if c == '4' {
        4
    } else if c == '5' {
        5
    } else if c == '6' {
        6
    } else if c == '7' {
        7
    } else if c == '8' {
        8
    } else if c == '9' {
        9
    } else {
        0
    }
}

/// The number that a row of digits stands for.
pub open spec fn decimal_value(digits: Seq<char>) -> nat
    decreases digits.len(),
{
    if digits.len() == 0 {
        0
    } else {
        decimal_value(digits.drop_last()) * 10 + digit_value(digits.last())
    }
}

/// The decimal text of a number reads back as the number, and has no leading
/// zero but for zero itself.
pub proof fn lemma_decimal_reads_back(n: nat)
    ensures
        decimal_value(decimal(n)) == n,
        decimal(n).len() >= 1,
        n > 0 ==> decimal(n)[0] != '0',
    decreases n,
{
    assert(digit_value(digit_char(n % 10)) == n % 10);
    assert(decimal(n).last() == digit_char(n % 10));
    if n < 10 {
        assert(decimal(n).drop_last() =~= Seq::<char>::empty());
        assert(decimal_value(decimal(n).drop_last()) == 0);
    } else {
        lemma_decimal_reads_back(n / 10);
        assert(decimal(n).drop_last() =~= decimal(n / 10));
    }
}

/// The text of one decimal digit.
fn digit_text(digit: usize) -> (r: &'static str)
    requires
        digit < 10,
    ensures
        r@ == seq![digit_char(digit as nat)],
{
    proof {
        reveal_strlit("0");
        reveal_strlit("1");
        reveal_strlit("2");
        reveal_strlit("3");
        reveal_strlit("4");
        reveal_strlit("5");
        reveal_strlit("6");
        reveal_strlit("7");
        reveal_strlit("8");
        reveal_strlit("9");
    }
    if digit == 0 {
        "0"
    } else if digit == 1 {
        "1"
    } else if digit == 2 {
        "2"
    } else if digit == 3 {
        "3"
    } else if digit == 4 {
        "4"
    } else if digit == 5 {
        "5"
    } else if digit == 6 {
        "6"
    } else if digit == 7 {
        "7"
    } else if digit == 8 {
        "8"
    } else {
        "9"
    }
}

/// Writes a number in decimal.
pub fn decimal_text(n: usize) -> (r: String)
    ensures
        r@ == decimal(n as nat),
    decreases n,
{
    if n < 10 {
        String::from_str(digit_text(n))
    } else {
        let mut text = decimal_text(n / 10);
        text.append(digit_text(n % 10));
        text
    }
}

/// The diagnostic for a line that did not parse: its number, counted from
/// one, and what was wrong with it.
pub open spec fn diagnostic_text(line_number: nat, description: Seq<char>) -> Seq<char> {
    "Error parsing line "@ + decimal(line_number) + ": "@ + description
}

/// The diagnostic for a line that did not parse.
pub fn diagnostic(line_number: usize, description: &str) -> (r: String)
    ensures
        r@ == diagnostic_text(line_number as nat, description@),
{
    let mut text = String::from_str("Error parsing line ");
    text.append(decimal_text(line_number).as_str());
    text.append(": ");
    text.append(description);
    text
}

/// The summary of a run: a blank line, a title, and one line for each of the
/// three counters.
pub open spec fn summary_text(total_lines: nat, error_count: nat, successful_records: nat) -> Seq<
    char,
> {
    "\nProcessing Summary:\n"@ + "Total lines processed: "@ + decimal(total_lines) + "\n"@
        + "Parsing errors: "@ + decimal(error_count) + "\n"@ + "Records with avg_rate <= 30: "@
        + decimal(successful_records) + "\n"@
}

/// The summary of a run.
pub fn summary(total_lines: usize, error_count: usize, successful_records: usize) -> (r: String)
    ensures
        r@ == summary_text(total_lines as nat, error_count as nat, successful_records as nat),
{
    let mut text = String::from_str("\nProcessing Summary:\n");
    text.append("Total lines processed: ");
    text.append(decimal_text(total_lines).as_str());
    text.append("\n");
    text.append("Parsing errors: ");
    text.append(decimal_text(error_count).as_str());
    text.append("\n");
    text.append("Records with avg_rate <= 30: ");
    text.append(decimal_text(successful_records).as_str());
    text.append("\n");
    text
}

} // verus!
