//! The report that a stepper hands out when it completes a run, and the line
//! of text that says it.

use std::time::Duration;

use vstd::prelude::*;
use vstd::string::StringExecFns;

use crate::app::Algorithm;
use crate::host::{duration_text, format_duration};

verus! {

/// How a run has ended.
#[derive(Clone, Copy, Debug, PartialEq, Eq, Structural)]
pub enum Outcome {
    /// A sort has gone through all its passes.
    Sorted,
    /// A search has met its target at this index.
    Found(usize),
    /// A search has ended without meeting its target.
    NotFound,
}

/// What a stepper hands out when it completes a run.
#[derive(Clone, Copy, Debug)]
pub struct Report {
    pub algorithm: Algorithm,
    pub target: usize,
    pub outcome: Outcome,
    pub elapsed: Duration,
}

/// The character that stands for the digit `d`.
pub open spec fn digit(d: nat) -> char {
    if d == 0 {
        '0'
    } else if d == 1 {
        '1'
    } else if d == 2 {
        '2'
    } else if d == 3 {
        '3'
    } else if d == 4 {
        '4'
    } else if d == 5 {
        '5'
    } else if d == 6 {
        '6'
    } else if d == 7 {
        '7'
    } else if d == 8 {
        '8'
    } else {
        '9'
    }
}

/// `n` in decimal notation, without leading zeros.
pub open spec fn decimal(n: nat) -> Seq<char>
    decreases n,
{
    if n < 10 {
        seq![digit(n)]
    } else {
        decimal(n / 10).push(digit(n % 10))
    }
}

/// The name under which a report speaks of `algorithm`.
pub open spec fn algorithm_name(algorithm: Algorithm) -> Seq<char> {
    match algorithm {
        Algorithm::BubbleSort => "Bubble Sort"@,
        Algorithm::QuickSort => "Quick Sort"@,
        Algorithm::BinarySearch => "Binary Search"@,
        Algorithm::LinearSearch => "Linear Search"@,
    }
}

/// What a report says of the end of a run for `target`.
pub open spec fn outcome_text(outcome: Outcome, target: usize) -> Seq<char> {
    match outcome {
        Outcome::Sorted => " completed"@,
        Outcome::Found(index) => " found "@ + decimal(target as nat) + " at index "@ + decimal(
            index as nat,
        ),
        Outcome::NotFound => " completed, not found"@,
    }
}

/// The text for one digit.
fn digit_text(d: usize) -> (text: &'static str)
    requires
        d < 10,
    ensures
        text@ == seq![digit(d as nat)],
{
    proof {
        reveal_strlit("0");
        reveal_strlit("1");
        reveal_strlit("2");
        reveal_strlit("3");
        reveal_strlit("4");
        reveal_strlit("5");
        reveal_strlit("6");
        reveal_strlit("7");
        reveal_strlit("8");
        reveal_strlit("9");
    }
    let text = if d == 0 {
        "0"
    } else if d == 1 {
        "1"
    } else if d == 2 {
        "2"
    } else if d == 3 {
        "3"
    } else if d == 4 {
        "4"
    } else if d == 5 {
        "5"
    } else if d == 6 {
        "6"
    } else if d == 7 {
        "7"
    } else if d == 8 {
        "8"
    } else {
        "9"
    };
    assert(text@ =~= seq![digit(d as nat)]);
    text
}

/// Writes `n` in decimal notation.
pub fn decimal_text(n: usize) -> (text: String)
    ensures
        text@ == decimal(n as nat),
    decreases n,
{
    if n < 10 {
        String::from_str(digit_text(n))
    } else {
        let mut text = decimal_text(n / 10);
        text.append(digit_text(n % 10));
        assert(text@ =~= decimal(n as nat));
        text
    }
}

impl Report {
    /// The line that says the report, given the text for the elapsed time:
    /// the algorithm, how the run ended and how long it took.
    pub open spec fn line_text(&self, elapsed: Seq<char>) -> Seq<char> {
        algorithm_name(self.algorithm) + outcome_text(self.outcome, self.target) + " in "@
            + elapsed
    }

    /// Writes the report as one line of text, without a line break, with
    /// `elapsed` as the text for the elapsed time.
    pub fn line_with(&self, elapsed: &str) -> (text: String)
        ensures
            text@ == self.line_text(elapsed@),
    {
        let mut text = String::from_str(
            match self.algorithm {
                Algorithm::BubbleSort => "Bubble Sort",
                Algorithm::QuickSort => "Quick Sort",
                Algorithm::BinarySearch => "Binary Search",
                Algorithm::LinearSearch => "Linear Search",
            },
        );
        match self.outcome {
            Outcome::Sorted => {
                text.append(" completed");
            },
            Outcome::Found(index) => {
                text.append(" found ");
                text.append(decimal_text(self.target).as_str());
                text.append(" at index ");
                text.append(decimal_text(index).as_str());
            },
            Outcome::NotFound => {
                text.append(" completed, not found");
            },
        }
        assert(text@ =~= algorithm_name(self.algorithm) + outcome_text(self.outcome, self.target));
        text.append(" in ");
        text.append(elapsed);
        text
    }

    /// Writes the report as one line of text, without a line break. The
    /// elapsed time is written with two digits behind the point.
    pub fn line(&self) -> (text: String)
        ensures
            text@ == self.line_text(duration_text(self.elapsed)),
    {
        let elapsed = format_duration(&self.elapsed);
        self.line_with(elapsed.as_str())
    }
}

} // verus!
