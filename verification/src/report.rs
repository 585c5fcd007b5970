//! The line of text that reports the outcome of one key.

use crate::outcome::{LookupError, LookupResult, Outcome};
use vstd::prelude::*;
use vstd::string::*;

verus! {

/// The character of a decimal digit.
pub open spec fn digit_char(digit: int) -> char {
    seq!['0', '1', '2', '3', '4', '5', '6', '7', '8', '9'][digit]
}

/// The decimal digits of a natural number, without leading zeros.
pub open spec fn nat_digits(n: nat) -> Seq<char>
    decreases n,
{
    if n < 10 {
        seq![digit_char(n as int)]
    } else {
        nat_digits(n / 10).push(digit_char((n % 10) as int))
    }
}

/// An integer in decimal, with a minus sign where it is negative.
pub open spec fn decimal_text(value: int) -> Seq<char> {
    if value < 0 {
        seq!['-'] + nat_digits((-value) as nat)
    } else {
        nat_digits(value as nat)
    }
}

/// What is said of a failure in a report line.
pub open spec fn error_text(error: LookupError) -> Seq<char> {
    match error {
        LookupError::Decode => "column is not valid UTF-8"@,
        LookupError::ColumnRange => "column index out of range"@,
    }
}

/// The report line of one key: the key, a tab, and what became of it.
pub open spec fn report_text(key: isize, outcome: Outcome) -> Seq<char> {
    "Key: "@ + decimal_text(key as int) + (match outcome {
        Outcome::Found(value) => "\tFound: "@ + value,
        Outcome::NotFound => "\tNot found"@,
        Outcome::Failed(error) => "\tFailed: "@ + error_text(error),
    })
}

fn digit_str(digit: usize) -> (text: &'static str)
    requires
        digit < 10,
    ensures
        text@ == seq![digit_char(digit as int)],
{
    proof {
        reveal_strlit("0");
        reveal_strlit("1");
        reveal_strlit("2");
        reveal_strlit("3");
        reveal_strlit("4");
        reveal_strlit("5");
        reveal_strlit("6");
        reveal_strlit("7");
        reveal_strlit("8");
        reveal_strlit("9");
    }
    let text = match digit {
        0 => "0",
        1 => "1",
        2 => "2",
        3 => "3",
        4 => "4",
        5 => "5",
        6 => "6",
        7 => "7",
        8 => "8",
        _ => "9",
    };
    assert(text@ =~= seq![digit_char(digit as int)]);
    text
}

fn push_digits(n: usize, out: &mut String)
    ensures
        final(out)@ == old(out)@ + nat_digits(n as nat),
    decreases n,
{
    if n >= 10 {
        push_digits(n / 10, out);
    }
    out.append(digit_str(n % 10));
    assert(out@ =~= old(out)@ + nat_digits(n as nat));
}

/// Writes a key in decimal.
pub fn key_text(key: isize) -> (text: String)
    ensures
        text@ == decimal_text(key as int),
{
    let mut text = String::new();
    if key < 0 {
        proof {
            reveal_strlit("-");
        }
        text.append("-");
        let magnitude: usize = (-(key + 1)) as usize + 1;
        push_digits(magnitude, &mut text);
        assert(text@ =~= decimal_text(key as int));
    } else {
        push_digits(key as usize, &mut text);
        assert(text@ =~= decimal_text(key as int));
    }
    text
}

impl LookupError {
    /// A few words on the failure, for a report line.
    pub fn message(&self) -> (text: &'static str)
        ensures
            text@ == error_text(*self),
    {
        match self {
            LookupError::Decode => "column is not valid UTF-8",
            LookupError::ColumnRange => "column index out of range",
        }
    }
}

/// Writes the report line of one key, without a newline:
/// `Key: <key>`, a tab, then `Found: <value>`, `Not found`, or
/// `Failed: <reason>`.
pub fn report_line(key: isize, outcome: &LookupResult) -> (line: String)
    ensures
        line@ == report_text(key, outcome@),
{
    let mut line = String::new();
    line.append("Key: ");
    let number = key_text(key);
    line.append(number.as_str());
    match outcome {
        LookupResult::Found(value) => {
            line.append("\tFound: ");
            line.append(value.as_str());
        },
        LookupResult::NotFound => {
            line.append("\tNot found");
        },
        LookupResult::Failed(error) => {
            line.append("\tFailed: ");
            line.append(error.message());
        },
    }
    assert(line@ =~= report_text(key, outcome@));
    line
}

} // verus!
