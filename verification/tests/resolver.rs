use replacer::error::{exit_code, Error};
use replacer::resolver::{
    classify, ensure_argc, resolve, Mode, Replacement, ResolvedInvocation, Sink, Source,
};

fn args(tokens: &[&str]) -> Vec<String> {
    tokens.iter().map(|t| t.to_string()).collect()
}

fn replacement(outcome: Result<ResolvedInvocation, Error>) -> Replacement {
    match outcome {
        Ok(ResolvedInvocation::Replace(r)) => r,
        other => panic!("no replacement: {:?}", other),
    }
}

#[test]
fn no_token_asks_for_help() {
    assert_eq!(resolve(&args(&[])), Ok(ResolvedInvocation::Help));
}

#[test]
fn help_flags_ask_for_help() {
    for flag in ["--help", "-h", "-?", "--?"] {
        assert_eq!(resolve(&args(&[flag])), Ok(ResolvedInvocation::Help));
        assert_eq!(resolve(&args(&[flag, "a", "b", "c"])), Ok(ResolvedInvocation::Help));
    }
}

#[test]
fn stdin_flags_take_from_and_to() {
    for flag in ["--stdin", "--pipeline", "-p"] {
        let r = replacement(resolve(&args(&[flag, ",", ";"])));
        assert_eq!(
            r,
            Replacement {
                mode: Mode::ReplaceFromStdin,
                source: Source::Stdin,
                from: ",".to_string(),
                to: ";".to_string(),
                sink: Sink::Stdout,
            }
        );
    }
}

#[test]
fn stdin_flag_with_wrong_count() {
    assert_eq!(
        resolve(&args(&["--stdin", "a"])),
        Err(Error::WrongArgumentNumber { expect: 2, got: 1 })
    );
    assert_eq!(
        resolve(&args(&["-p", "a", "b", "c"])),
        Err(Error::WrongArgumentNumber { expect: 2, got: 3 })
    );
    assert_eq!(
        resolve(&args(&["--pipeline"])),
        Err(Error::WrongArgumentNumber { expect: 2, got: 0 })
    );
}

#[test]
fn string_flags_take_text_from_and_to() {
    for flag in ["--string", "-s"] {
        let r = replacement(resolve(&args(&[flag, "hello world", "world", "Rust"])));
        assert_eq!(
            r,
            Replacement {
                mode: Mode::ReplaceFromString,
                source: Source::Inline("hello world".to_string()),
                from: "world".to_string(),
                to: "Rust".to_string(),
                sink: Sink::Stdout,
            }
        );
    }
}

#[test]
fn string_flag_with_two_arguments_is_a_wrong_count() {
    let outcome = resolve(&args(&["--string", "text", "from"]));
    assert_eq!(outcome, Err(Error::WrongArgumentNumber { expect: 3, got: 2 }));
    let run: Result<(), Error> = outcome.map(|_| ());
    assert_eq!(exit_code(&run), 1);
}

#[test]
fn string_flag_with_four_arguments_is_a_wrong_count() {
    assert_eq!(
        resolve(&args(&["-s", "a", "b", "c", "d"])),
        Err(Error::WrongArgumentNumber { expect: 3, got: 4 })
    );
}

#[test]
fn file_flags_take_two_paths_around_from_and_to() {
    for flag in ["--file", "-f"] {
        let r = replacement(resolve(&args(&[flag, "in.txt", "a", "b", "out.txt"])));
        assert_eq!(
            r,
            Replacement {
                mode: Mode::ReplaceFromFile,
                source: Source::File("in.txt".to_string()),
                from: "a".to_string(),
                to: "b".to_string(),
                sink: Sink::File("out.txt".to_string()),
            }
        );
    }
}

#[test]
fn file_flag_with_wrong_count() {
    assert_eq!(
        resolve(&args(&["--file", "in.txt", "a", "b"])),
        Err(Error::WrongArgumentNumber { expect: 4, got: 3 })
    );
    assert_eq!(
        resolve(&args(&["-f", "in.txt", "a", "b", "out.txt", "more"])),
        Err(Error::WrongArgumentNumber { expect: 4, got: 5 })
    );
}

#[test]
fn flagless_with_one_follower_reads_stdin() {
    let r = replacement(resolve(&args(&["from", "to"])));
    assert_eq!(
        r,
        Replacement {
            mode: Mode::ReplaceAmbiguousShorthand,
            source: Source::Stdin,
            from: "from".to_string(),
            to: "to".to_string(),
            sink: Sink::Stdout,
        }
    );
}

#[test]
fn flagless_with_two_followers_takes_the_first_token_as_text() {
    let r = replacement(resolve(&args(&["some text", "text", "words"])));
    assert_eq!(
        r,
        Replacement {
            mode: Mode::ReplaceAmbiguousShorthand,
            source: Source::Inline("some text".to_string()),
            from: "text".to_string(),
            to: "words".to_string(),
            sink: Sink::Stdout,
        }
    );
}

#[test]
fn unknown_first_token_alone() {
    let outcome = resolve(&args(&["foo"]));
    assert_eq!(outcome, Err(Error::UnknownArgument("foo".to_string())));
    let run: Result<(), Error> = outcome.map(|_| ());
    assert_eq!(exit_code(&run), 1);
}

#[test]
fn unknown_first_token_with_three_followers() {
    assert_eq!(
        resolve(&args(&["--strin", "a", "b", "c"])),
        Err(Error::UnknownArgument("--strin".to_string()))
    );
}

#[test]
fn flags_are_case_sensitive() {
    assert_eq!(classify("--STRING"), Mode::ReplaceAmbiguousShorthand);
    assert_eq!(classify("-S"), Mode::ReplaceAmbiguousShorthand);
    assert_eq!(classify("--Help"), Mode::ReplaceAmbiguousShorthand);
    assert_eq!(
        resolve(&args(&["-H"])),
        Err(Error::UnknownArgument("-H".to_string()))
    );
}

#[test]
fn classify_knows_every_flag() {
    assert_eq!(classify("--help"), Mode::Help);
    assert_eq!(classify("-h"), Mode::Help);
    assert_eq!(classify("-?"), Mode::Help);
    assert_eq!(classify("--?"), Mode::Help);
    assert_eq!(classify("--stdin"), Mode::ReplaceFromStdin);
    assert_eq!(classify("--pipeline"), Mode::ReplaceFromStdin);
    assert_eq!(classify("-p"), Mode::ReplaceFromStdin);
    assert_eq!(classify("--string"), Mode::ReplaceFromString);
    assert_eq!(classify("-s"), Mode::ReplaceFromString);
    assert_eq!(classify("--file"), Mode::ReplaceFromFile);
    assert_eq!(classify("-f"), Mode::ReplaceFromFile);
    assert_eq!(classify(""), Mode::ReplaceAmbiguousShorthand);
    assert_eq!(classify("text"), Mode::ReplaceAmbiguousShorthand);
}

#[test]
fn ensure_argc_accepts_the_exact_count_only() {
    assert_eq!(ensure_argc(&args(&["a", "b"]), 2), Ok(()));
    assert_eq!(ensure_argc(&args(&[]), 0), Ok(()));
    assert_eq!(
        ensure_argc(&args(&["a"]), 2),
        Err(Error::WrongArgumentNumber { expect: 2, got: 1 })
    );
    assert_eq!(
        ensure_argc(&args(&["a", "b", "c"]), 2),
        Err(Error::WrongArgumentNumber { expect: 2, got: 3 })
    );
}

#[test]
fn string_mode_end_to_end() {
    let outcome = resolve(&args(&["--string", "hello world", "world", "Rust"]));
    let r = replacement(outcome);
    let text = match &r.source {
        Source::Inline(text) => text.clone(),
        other => panic!("not inline: {:?}", other),
    };
    assert_eq!(r.sink, Sink::Stdout);
    assert_eq!(r.apply(&text), "hello Rust\n");
    assert_eq!(exit_code(&Ok(())), 0);
}

#[test]
fn stdin_mode_end_to_end() {
    let r = replacement(resolve(&args(&["--stdin", ",", ";"])));
    assert_eq!(r.source, Source::Stdin);
    assert_eq!(r.sink, Sink::Stdout);
    assert_eq!(r.apply("a,b,c"), "a;b;c\n");
}

#[test]
fn file_mode_writes_the_result_without_a_line_end() {
    let r = replacement(resolve(&args(&["--file", "in.txt", "b", "x", "out.txt"])));
    assert_eq!(r.apply("abc\nabc"), "axc\naxc");
}

#[test]
fn frame_adds_a_line_end_on_stdout_only() {
    assert_eq!(Sink::Stdout.frame("abc".to_string()), "abc\n");
    assert_eq!(Sink::Stdout.frame(String::new()), "\n");
    assert_eq!(Sink::File("out".to_string()).frame("abc".to_string()), "abc");
    assert_eq!(Sink::File("out".to_string()).frame(String::new()), "");
}

#[test]
fn flagless_end_to_end() {
    let r = replacement(resolve(&args(&["a-b", "-", "+"])));
    let text = match &r.source {
        Source::Inline(text) => text.clone(),
        other => panic!("not inline: {:?}", other),
    };
    assert_eq!(r.apply(&text), "a+b\n");
    let r = replacement(resolve(&args(&["-", "+"])));
    assert_eq!(r.apply("a-b"), "a+b\n");
}
