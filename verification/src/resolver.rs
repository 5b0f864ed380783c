//! From the command-line tokens to the plan of one run: where the source
//! text comes from, what is replaced by what, and where the result goes.

use crate::error::{Error, ErrorView};
use crate::substitution::{replaced, substitute};
use crate::text::{push_char, same_text};
use vstd::prelude::*;
use vstd::slice::slice_subrange;

verus! {

/// The form of an invocation, chosen by its first token.
#[derive(Debug, Clone, Copy, PartialEq, Eq, Structural)]
pub enum Mode {
    /// Print the usage text and do nothing else.
    Help,
    /// The source text is a token of the command line.
    ReplaceFromString,
    /// The source text is read from the standard input.
    ReplaceFromStdin,
    /// The source text is read from one file and the result written to
    /// another.
    ReplaceFromFile,
    /// No flag: the number of tokens behind the first decides.
    ReplaceAmbiguousShorthand,
}

/// Where the source text comes from.
#[derive(Debug, Clone, PartialEq, Eq)]
pub enum Source {
    /// The text itself, as given on the command line.
    Inline(String),
    /// The whole of the standard input.
    Stdin,
    /// The whole of the file at this path.
    File(String),
}

/// Where the result goes.
#[derive(Debug, Clone, PartialEq, Eq)]
pub enum Sink {
    /// The standard output; the result is followed by a line end.
    Stdout,
    /// The file at this path, created or truncated; the result is written
    /// as it is.
    File(String),
}

/// One replacement, resolved from the command line.
#[derive(Debug, Clone, PartialEq, Eq)]
pub struct Replacement {
    pub mode: Mode,
    pub source: Source,
    pub from: String,
    pub to: String,
    pub sink: Sink,
}

/// What an invocation asks for.
#[derive(Debug, Clone, PartialEq, Eq)]
pub enum ResolvedInvocation {
    Help,
    Replace(Replacement),
}

/// A [`Source`] with its texts as sequences of characters.
pub enum SourceView {
    Inline(Seq<char>),
    Stdin,
    File(Seq<char>),
}

/// A [`Sink`] with its path as a sequence of characters.
pub enum SinkView {
    Stdout,
    File(Seq<char>),
}

/// A [`Replacement`] with its texts as sequences of characters.
pub struct ReplacementView {
    pub mode: Mode,
    pub source: SourceView,
    pub from: Seq<char>,
    pub to: Seq<char>,
    pub sink: SinkView,
}

/// A [`ResolvedInvocation`] with its texts as sequences of characters.
pub enum ResolvedView {
    Help,
    Replace(ReplacementView),
}

impl View for Source {
    type V = SourceView;

    open spec fn view(&self) -> SourceView {
        match self {
            Source::Inline(text) => SourceView::Inline(text@),
            Source::Stdin => SourceView::Stdin,
            Source::File(path) => SourceView::File(path@),
        }
    }
}

impl View for Sink {
    type V = SinkView;

    open spec fn view(&self) -> SinkView {
        match self {
            Sink::Stdout => SinkView::Stdout,
            Sink::File(path) => SinkView::File(path@),
        }
    }
}

impl View for Replacement {
    type V = ReplacementView;

    open spec fn view(&self) -> ReplacementView {
        ReplacementView {
            mode: self.mode,
            source: self.source@,
            from: self.from@,
            to: self.to@,
            sink: self.sink@,
        }
    }
}

impl View for ResolvedInvocation {
    type V = ResolvedView;

    open spec fn view(&self) -> ResolvedView {
        match self {
            ResolvedInvocation::Help => ResolvedView::Help,
            ResolvedInvocation::Replace(r) => ResolvedView::Replace(r@),
        }
    }
}

/// The mode that a first token selects. Tokens are compared exactly, case
/// included.
pub open spec fn mode_of(token: Seq<char>) -> Mode {
    if token == "--help"@ || token == "-h"@ || token == "-?"@ || token == "--?"@ {
        Mode::Help
    } else if token == "--stdin"@ || token == "--pipeline"@ || token == "-p"@ {
        Mode::ReplaceFromStdin
    } else if token == "--string"@ || token == "-s"@ {
        Mode::ReplaceFromString
    } else if token == "--file"@ || token == "-f"@ {
        Mode::ReplaceFromFile
    } else {
        Mode::ReplaceAmbiguousShorthand
    }
}

/// The number of tokens that must follow the flag of a mode; `None` where
/// the mode fixes no number.
pub open spec fn arity(mode: Mode) -> Option<nat> {
    match mode {
        Mode::Help => None,
        Mode::ReplaceFromStdin => Some(2nat),
        Mode::ReplaceFromString => Some(3nat),
        Mode::ReplaceFromFile => Some(4nat),
        Mode::ReplaceAmbiguousShorthand => None,
    }
}

/// The tokens of a command line as sequences of characters.
pub open spec fn tokens(args: Seq<String>) -> Seq<Seq<char>> {
    Seq::new(args.len(), |i: int| args[i]@)
}

/// What a command line resolves to. `args` are the tokens behind the
/// program's name.
pub open spec fn resolution(args: Seq<Seq<char>>) -> Result<ResolvedView, ErrorView> {
    if args.len() == 0 {
        Ok(ResolvedView::Help)
    } else {
        let first = args[0];
        let rest = args.skip(1);
        let mode = mode_of(first);
        match mode {
            Mode::Help => Ok(ResolvedView::Help),
            Mode::ReplaceFromStdin => if rest.len() == 2 {
                Ok(
                    ResolvedView::Replace(
                        ReplacementView {
                            mode,
                            source: SourceView::Stdin,
                            from: rest[0],
                            to: rest[1],
                            sink: SinkView::Stdout,
                        },
                    ),
                )
            } else {
                Err(ErrorView::WrongArgumentNumber { expect: 2, got: rest.len() })
            },
            Mode::ReplaceFromString => if rest.len() == 3 {
                Ok(
                    ResolvedView::Replace(
                        ReplacementView {
                            mode,
                            source: SourceView::Inline(rest[0]),
                            from: rest[1],
                            to: rest[2],
                            sink: SinkView::Stdout,
                        },
                    ),
                )
            } else {
                Err(ErrorView::WrongArgumentNumber { expect: 3, got: rest.len() })
            },
            Mode::ReplaceFromFile => if rest.len() == 4 {
                Ok(
                    ResolvedView::Replace(
                        ReplacementView {
                            mode,
                            source: SourceView::File(rest[0]),
                            from: rest[1],
                            to: rest[2],
                            sink: SinkView::File(rest[3]),
                        },
                    ),
                )
            } else {
                Err(ErrorView::WrongArgumentNumber { expect: 4, got: rest.len() })
            },
            Mode::ReplaceAmbiguousShorthand => if rest.len() == 1 {
                Ok(
                    ResolvedView::Replace(
                        ReplacementView {
                            mode,
                            source: SourceView::Stdin,
                            from: first,
                            to: rest[0],
                            sink: SinkView::Stdout,
                        },
                    ),
                )
            } else if rest.len() == 2 {
                Ok(
                    ResolvedView::Replace(
                        ReplacementView {
                            mode,
                            source: SourceView::Inline(first),
                            from: rest[0],
                            to: rest[1],
                            sink: SinkView::Stdout,
                        },
                    ),
                )
            } else {
                Err(ErrorView::UnknownArgument(first))
            },
        }
    }
}

/// The outcome of resolving, with its texts as sequences of characters.
pub open spec fn outcome_view(r: Result<ResolvedInvocation, Error>) -> Result<
    ResolvedView,
    ErrorView,
> {
    match r {
        Ok(invocation) => Ok(invocation@),
        Err(e) => Err(e@),
    }
}

/// A flag that takes a fixed number of tokens resolves to a replacement
/// when exactly that number follows it, and otherwise to the error that
/// names the number it takes and the number that followed.
pub proof fn lemma_fixed_arity(args: Seq<Seq<char>>, expect: nat)
    requires
        args.len() > 0,
        arity(mode_of(args[0])) == Some(expect),
    ensures
        args.len() - 1 == expect ==> resolution(args) is Ok && resolution(args)->Ok_0 is Replace,
        args.len() - 1 != expect ==> resolution(args) == Err::<ResolvedView, ErrorView>(
            ErrorView::WrongArgumentNumber { expect, got: (args.len() - 1) as nat },
        ),
{
}

/// Resolving reads and writes nothing, so it never fails on input or
/// output: its only errors are a wrong number of tokens behind a flag and
/// an unknown first token, and the unknown token reported is the first one.
pub proof fn lemma_resolution_errors(args: Seq<Seq<char>>)
    ensures
        match resolution(args) {
            Ok(_) => true,
            Err(ErrorView::WrongArgumentNumber { expect, got }) => args.len() > 0 && arity(
                mode_of(args[0]),
            ) == Some(expect) && got == args.len() - 1 && got != expect,
            Err(ErrorView::UnknownArgument(token)) => args.len() > 0 && token == args[0]
                && mode_of(args[0]) == Mode::ReplaceAmbiguousShorthand && args.len() != 2
                && args.len() != 3,
            Err(_) => false,
        },
{
}

/// The mode that `token`, standing first on the command line, selects.
pub fn classify(token: &str) -> (mode: Mode)
    ensures
        mode == mode_of(token@),
{
    if same_text(token, "--help") || same_text(token, "-h") || same_text(token, "-?") || same_text(
        token,
        "--?",
    ) {
        Mode::Help
    } else if same_text(token, "--stdin") || same_text(token, "--pipeline") || same_text(
        token,
        "-p",
    ) {
        Mode::ReplaceFromStdin
    } else if same_text(token, "--string") || same_text(token, "-s") {
        Mode::ReplaceFromString
    } else if same_text(token, "--file") || same_text(token, "-f") {
        Mode::ReplaceFromFile
    } else {
        Mode::ReplaceAmbiguousShorthand
    }
}

/// Holds the number of `args` against `len`, the number that a flag takes.
pub fn ensure_argc(args: &[String], len: usize) -> (checked: Result<(), Error>)
    ensures
        args@.len() == len ==> checked is Ok,
        args@.len() != len ==> checked is Err && checked->Err_0@ == (
        ErrorView::WrongArgumentNumber { expect: len as nat, got: args@.len() }),
{
    if args.len() != len {
        Err(Error::WrongArgumentNumber { expect: len, got: args.len() })
    } else {
        Ok(())
    }
}

/// Resolves the tokens behind the program's name into what the run is to
/// do, or into the error that the command line amounts to. Nothing is read
/// or written: the caller loads the source that the result names.
///
/// No token at all asks for the usage text, as `--help` does. A flag takes
/// a fixed number of tokens behind it (the flags for the standard input
/// two, `from` and `to`; those for a text three, the text first; those for
/// a file four, the path to read first and the path to write last), and
/// any other number is an error that names both numbers. The flags for the
/// usage text take any number. A first token that is no flag is `from`
/// where one token follows it (the source is the standard input), and the
/// source text where two follow; any other number makes it an unknown
/// argument.
pub fn resolve(args: &[String]) -> (outcome: Result<ResolvedInvocation, Error>)
    ensures
        outcome_view(outcome) == resolution(tokens(args@)),
{
    let n: usize = args.len();
    if n == 0 {
        return Ok(ResolvedInvocation::Help);
    }
    let first = &args[0];
    let rest = slice_subrange(args, 1, n);
    let mode = classify(first.as_str());
    proof {
        assert(tokens(args@)[0] == first@);
        assert(tokens(args@).skip(1).len() == rest@.len());
        assert forall|i: int| 0 <= i < rest@.len() implies tokens(args@).skip(1)[i] == rest@[i]@ by {
            assert(rest@[i] == args@[i + 1]);
        }
    }
    match mode {
        Mode::Help => Ok(ResolvedInvocation::Help),
        Mode::ReplaceFromStdin => {
            match ensure_argc(rest, 2) {
                Err(e) => Err(e),
                Ok(_) => Ok(
                    ResolvedInvocation::Replace(
                        Replacement {
                            mode,
                            source: Source::Stdin,
                            from: rest[0].clone(),
                            to: rest[1].clone(),
                            sink: Sink::Stdout,
                        },
                    ),
                ),
            }
        },
        Mode::ReplaceFromString => {
            match ensure_argc(rest, 3) {
                Err(e) => Err(e),
                Ok(_) => Ok(
                    ResolvedInvocation::Replace(
                        Replacement {
                            mode,
                            source: Source::Inline(rest[0].clone()),
                            from: rest[1].clone(),
                            to: rest[2].clone(),
                            sink: Sink::Stdout,
                        },
                    ),
                ),
            }
        },
        Mode::ReplaceFromFile => {
            match ensure_argc(rest, 4) {
                Err(e) => Err(e),
                Ok(_) => Ok(
                    ResolvedInvocation::Replace(
                        Replacement {
                            mode,
                            source: Source::File(rest[0].clone()),
                            from: rest[1].clone(),
                            to: rest[2].clone(),
                            sink: Sink::File(rest[3].clone()),
                        },
                    ),
                ),
            }
        },
        Mode::ReplaceAmbiguousShorthand => {
            if rest.len() == 1 {
                Ok(
                    ResolvedInvocation::Replace(
                        Replacement {
                            mode,
                            source: Source::Stdin,
                            from: first.clone(),
                            to: rest[0].clone(),
                            sink: Sink::Stdout,
                        },
                    ),
                )
            } else if rest.len() == 2 {
                Ok(
                    ResolvedInvocation::Replace(
                        Replacement {
                            mode,
                            source: Source::Inline(first.clone()),
                            from: rest[0].clone(),
                            to: rest[1].clone(),
                            sink: Sink::Stdout,
                        },
                    ),
                )
            } else {
                Err(Error::UnknownArgument(first.clone()))
            }
        },
    }
}

/// What is written to a sink for a result: on the standard output the
/// result and a line end, in a file the result alone.
pub open spec fn emitted(sink: SinkView, result: Seq<char>) -> Seq<char> {
    match sink {
        SinkView::Stdout => result.push('\n'),
        SinkView::File(_) => result,
    }
}

impl Sink {
    /// The text to write to this sink for `result`.
    pub fn frame(&self, result: String) -> (out: String)
        ensures
            out@ == emitted(self@, result@),
    {
        match self {
            Sink::Stdout => {
                let mut out = result;
                push_char(&mut out, '\n');
                out
            },
            Sink::File(_) => result,
        }
    }
}

impl Replacement {
    /// Carries the replacement out on the loaded source text and returns
    /// what is to be written to the sink.
    pub fn apply(&self, source_text: &str) -> (out: String)
        ensures
            out@ == emitted(self@.sink, replaced(source_text@, self@.from, self@.to)),
    {
        let result = substitute(source_text, self.from.as_str(), self.to.as_str());
        self.sink.frame(result)
    }
}

} // verus!
