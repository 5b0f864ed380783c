//! What can go wrong in one run, and the line that reports it.

use crate::text::push_char;
use vstd::prelude::*;
use vstd::string::StringExecFns;

verus! {

/// A failure of one run.
#[derive(Debug, Clone, PartialEq, Eq)]
pub enum Error {
    /// The first token is no known flag, and the number of tokens behind it
    /// fits no flagless form.
    UnknownArgument(String),
    /// A flag was followed by `got` tokens where it takes `expect`.
    WrongArgumentNumber { expect: usize, got: usize },
    /// Reading the standard input or writing the result failed.
    IO(String),
    /// A failure reported by a named part, in its own words.
    Msg { from: String, msg: String },
}

/// An [`Error`] with its texts as sequences of characters.
pub enum ErrorView {
    UnknownArgument(Seq<char>),
    WrongArgumentNumber { expect: nat, got: nat },
    IO(Seq<char>),
    Msg { from: Seq<char>, msg: Seq<char> },
}

impl View for Error {
    type V = ErrorView;

    open spec fn view(&self) -> ErrorView {
        match self {
            Error::UnknownArgument(token) => ErrorView::UnknownArgument(token@),
            Error::WrongArgumentNumber { expect, got } => ErrorView::WrongArgumentNumber {
                expect: *expect as nat,
                got: *got as nat,
            },
            Error::IO(detail) => ErrorView::IO(detail@),
            Error::Msg { from, msg } => ErrorView::Msg { from: from@, msg: msg@ },
        }
    }
}

/// The character that writes the digit `d`.
pub open spec fn digit_char(d: nat) -> char {
    if d == 0 {
        '0'
    } else if d == 1 {
        '1'
    } else if d == 2 {
        '2'
    } else if d == 3 {
        '3'
    } else if d == 4 {
        '4'
    } else if d == 5 {
        '5'
    } else if d == 6 {
        '6'
    } else if d == 7 {
        '7'
    } else if d == 8 {
        '8'
    } else {
        '9'
    }
}

/// The number `n` written in base ten, without leading zeros.
pub open spec fn decimal(n: nat) -> Seq<char>
    decreases n,
{
    if n < 10 {
        seq![digit_char(n)]
    } else {
        decimal(n / 10).push(digit_char(n % 10))
    }
}

/// The description of an error, as one line without a line end.
pub open spec fn description(e: ErrorView) -> Seq<char> {
    match e {
        ErrorView::UnknownArgument(token) => "unknown argument: "@ + token,
        ErrorView::WrongArgumentNumber { expect, got } => "argument expect: "@ + decimal(expect)
            + ", got: "@ + decimal(got),
        ErrorView::IO(detail) => "io error: "@ + detail,
        ErrorView::Msg { from, msg } => from + " error: "@ + msg,
    }
}

/// The line written to the error stream for an error.
pub open spec fn diagnostic_line(e: ErrorView) -> Seq<char> {
    "error: "@ + description(e)
}

fn digit_of(d: usize) -> (c: char)
    requires
        d < 10,
    ensures
        c == digit_char(d as nat),
{
    if d == 0 {
        '0'
    } else if d == 1 {
        '1'
    } else if d == 2 {
        '2'
    } else if d == 3 {
        '3'
    } else if d == 4 {
        '4'
    } else if d == 5 {
        '5'
    } else if d == 6 {
        '6'
    } else if d == 7 {
        '7'
    } else if d == 8 {
        '8'
    } else {
        '9'
    }
}

/// Appends `n` in base ten to `out`.
pub fn push_decimal(out: &mut String, n: usize)
    ensures
        final(out)@ == old(out)@ + decimal(n as nat),
    decreases n,
{
    if n >= 10 {
        push_decimal(out, n / 10);
    }
    push_char(out, digit_of(n % 10));
    assert(old(out)@ + decimal(n as nat) =~= if n < 10 {
        old(out)@.push(digit_char(n as nat))
    } else {
        (old(out)@ + decimal((n / 10) as nat)).push(digit_char((n % 10) as nat))
    });
}

impl Error {
    /// The description of this error.
    pub fn message(&self) -> (line: String)
        ensures
            line@ == description(self@),
    {
        match self {
            Error::UnknownArgument(token) => {
                let mut line = String::from_str("unknown argument: ");
                line.append(token.as_str());
                line
            },
            Error::WrongArgumentNumber { expect, got } => {
                let mut line = String::from_str("argument expect: ");
                push_decimal(&mut line, *expect);
                line.append(", got: ");
                push_decimal(&mut line, *got);
                line
            },
            Error::IO(detail) => {
                let mut line = String::from_str("io error: ");
                line.append(detail.as_str());
                line
            },
            Error::Msg { from, msg } => {
                let mut line = from.clone();
                line.append(" error: ");
                line.append(msg.as_str());
                line
            },
        }
    }

    /// The line to write to the error stream: the description behind
    /// `error: `.
    pub fn diagnostic(&self) -> (line: String)
        ensures
            line@ == diagnostic_line(self@),
    {
        let mut line = String::from_str("error: ");
        let body = self.message();
        line.append(body.as_str());
        line
    }
}

/// The status with which the process ends: 0 after a run that succeeded,
/// 1 after any failure.
pub fn exit_code(outcome: &Result<(), Error>) -> (code: i32)
    ensures
        code == if outcome is Ok { 0i32 } else { 1i32 },
{
    match outcome {
        Ok(_) => 0,
        Err(_) => 1,
    }
}

} // verus!
