use minishell::error::{Limit, ParseError, ShellError};
use minishell::report::{report, Channel, Outcome, Report, Status};
use minishell::session::{Action, Session, INVALID_EXIT_CODE};

fn owned(items: &[&str]) -> Vec<String> {
    items.iter().map(|s| s.to_string()).collect()
}

fn silent() -> Report {
    Report { channel: Channel::Output, bytes: Vec::new() }
}

#[test]
fn session_defaults() {
    let session = Session::new();
    assert_eq!(session.working_directory, ".");
    assert_eq!(session.exit_command, "exit");
    assert_eq!(session.change_dir_command, "cd");
    assert_eq!(session.max_command_length, 1000);
    assert_eq!(session.max_argument_count, 100);
}

#[test]
fn exit_without_argument_ends_with_zero() {
    let session = Session::new();
    assert_eq!(session.interpret("exit\n"), Ok(Action::Exit { code: 0, notice: silent() }));
}

#[test]
fn exit_with_code_announces_it() {
    let session = Session::new();
    assert_eq!(
        session.interpret("exit 7"),
        Ok(Action::Exit {
            code: 7,
            notice: Report { channel: Channel::Output, bytes: b"exit code 7\n".to_vec() },
        })
    );
    assert_eq!(
        session.interpret("exit -3"),
        Ok(Action::Exit {
            code: -3,
            notice: Report { channel: Channel::Output, bytes: b"exit code -3\n".to_vec() },
        })
    );
}

#[test]
fn exit_with_leading_zeros_announces_the_number() {
    let session = Session::new();
    assert_eq!(
        session.interpret("exit 007"),
        Ok(Action::Exit {
            code: 7,
            notice: Report { channel: Channel::Output, bytes: b"exit code 7\n".to_vec() },
        })
    );
}

#[test]
fn exit_with_bad_code_ends_with_the_reserved_code() {
    let session = Session::new();
    assert_eq!(INVALID_EXIT_CODE, 42);
    assert_eq!(
        session.interpret("exit abc"),
        Ok(Action::Exit {
            code: 42,
            notice: Report { channel: Channel::Error, bytes: b"Invalid exit code abc\n".to_vec() },
        })
    );
    assert_eq!(
        session.interpret("exit 2147483648"),
        Ok(Action::Exit {
            code: 42,
            notice: Report {
                channel: Channel::Error,
                bytes: b"Invalid exit code 2147483648\n".to_vec(),
            },
        })
    );
}

#[test]
fn exit_looks_at_the_first_argument_only() {
    let session = Session::new();
    assert_eq!(
        session.interpret("exit 3 4 five"),
        Ok(Action::Exit {
            code: 3,
            notice: Report { channel: Channel::Output, bytes: b"exit code 3\n".to_vec() },
        })
    );
    assert_eq!(
        session.interpret("exit x 4"),
        Ok(Action::Exit {
            code: 42,
            notice: Report { channel: Channel::Error, bytes: b"Invalid exit code x\n".to_vec() },
        })
    );
}

#[test]
fn built_in_names_ignore_case() {
    let session = Session::new();
    assert_eq!(session.interpret("EXIT"), Ok(Action::Exit { code: 0, notice: silent() }));
    assert_eq!(session.interpret("Exit"), Ok(Action::Exit { code: 0, notice: silent() }));
    assert_eq!(
        session.interpret("CD /tmp"),
        Ok(Action::ChangeDirectory { target: "/tmp".to_string() })
    );
}

#[test]
fn program_name_is_put_in_lower_case() {
    let session = Session::new();
    assert_eq!(
        session.interpret("LS -L Dir"),
        Ok(Action::Run {
            program: "ls".to_string(),
            arguments: owned(&["-L", "Dir"]),
            directory: ".".to_string(),
        })
    );
}

#[test]
fn cd_without_argument_changes_nothing() {
    let session = Session::new();
    let before = session.clone();
    assert_eq!(session.interpret("cd"), Ok(Action::Nothing));
    assert_eq!(session, before);
    assert_eq!(report(&Ok(Outcome::not_run())), silent());
}

#[test]
fn cd_with_target_asks_for_a_lookup() {
    let session = Session::new();
    assert_eq!(
        session.interpret("cd some/dir"),
        Ok(Action::ChangeDirectory { target: "some/dir".to_string() })
    );
    assert_eq!(
        session.interpret("cd a b"),
        Ok(Action::ChangeDirectory { target: "a".to_string() })
    );
}

#[test]
fn cd_to_existing_directory_moves_later_commands() {
    let mut session = Session::new();
    assert_eq!(
        session.interpret("pwd"),
        Ok(Action::Run {
            program: "pwd".to_string(),
            arguments: Vec::new(),
            directory: ".".to_string(),
        })
    );
    let outcome = session.change_directory(Some("/usr/share".to_string()));
    assert_eq!(
        outcome,
        Ok(Outcome { status: Status::NotRun, stdout: Vec::new(), stderr: Vec::new() })
    );
    assert_eq!(session.working_directory, "/usr/share");
    assert_eq!(session.exit_command, "exit");
    assert_eq!(session.change_dir_command, "cd");
    assert_eq!(session.max_command_length, 1000);
    assert_eq!(session.max_argument_count, 100);
    assert_eq!(
        session.interpret("pwd"),
        Ok(Action::Run {
            program: "pwd".to_string(),
            arguments: Vec::new(),
            directory: "/usr/share".to_string(),
        })
    );
}

#[test]
fn cd_to_missing_directory_changes_nothing() {
    let mut session = Session::new();
    session.change_directory(Some("/var".to_string())).unwrap();
    let before = session.clone();
    assert_eq!(session.change_directory(None), Err(ShellError::NotFound));
    assert_eq!(session, before);
}

#[test]
fn blank_line_asks_for_nothing() {
    let session = Session::new();
    assert_eq!(session.interpret(""), Ok(Action::Nothing));
    assert_eq!(session.interpret("   \n"), Ok(Action::Nothing));
}

#[test]
fn unmatched_quote_asks_for_nothing() {
    let session = Session::new();
    assert_eq!(
        session.interpret("echo \"a"),
        Err(ShellError::Parse(ParseError::UnmatchedQuote))
    );
    assert_eq!(
        session.interpret("exit '"),
        Err(ShellError::Parse(ParseError::UnmatchedQuote))
    );
}

#[test]
fn external_command_keeps_its_quotes() {
    let session = Session::new();
    assert_eq!(
        session.interpret("echo \"a b\" c"),
        Ok(Action::Run {
            program: "echo".to_string(),
            arguments: owned(&["\"a b\"", "c"]),
            directory: ".".to_string(),
        })
    );
}

#[test]
fn command_of_1000_characters_is_accepted() {
    let session = Session::new();
    let name = "a".repeat(1000);
    assert_eq!(
        session.interpret(&name),
        Ok(Action::Run { program: name.clone(), arguments: Vec::new(), directory: ".".to_string() })
    );
}

#[test]
fn command_longer_than_1000_characters_is_rejected() {
    let session = Session::new();
    let name = "a".repeat(1001);
    assert_eq!(session.interpret(&name), Err(ShellError::LimitExceeded(Limit::CommandLength)));
    let with_arguments = format!("{} x y z", name);
    assert_eq!(
        session.interpret(&with_arguments),
        Err(ShellError::LimitExceeded(Limit::CommandLength))
    );
    let with_too_many = format!("{}{}", name, " x".repeat(200));
    assert_eq!(
        session.interpret(&with_too_many),
        Err(ShellError::LimitExceeded(Limit::CommandLength))
    );
}

#[test]
fn command_length_counts_characters() {
    let session = Session::new();
    let name = "é".repeat(1000);
    assert!(matches!(session.interpret(&name), Ok(Action::Run { .. })));
    let longer = "é".repeat(1001);
    assert_eq!(session.interpret(&longer), Err(ShellError::LimitExceeded(Limit::CommandLength)));
}

#[test]
fn hundred_arguments_are_accepted() {
    let session = Session::new();
    let line = format!("echo{}", " x".repeat(100));
    match session.interpret(&line) {
        Ok(Action::Run { program, arguments, .. }) => {
            assert_eq!(program, "echo");
            assert_eq!(arguments.len(), 100);
        }
        other => panic!("unexpected {:?}", other),
    }
}

#[test]
fn more_than_hundred_arguments_are_rejected() {
    let session = Session::new();
    let line = format!("echo{}", " x".repeat(101));
    assert_eq!(session.interpret(&line), Err(ShellError::LimitExceeded(Limit::ArgumentCount)));
    let leaving = format!("exit{}", " 1".repeat(101));
    assert_eq!(session.interpret(&leaving), Err(ShellError::LimitExceeded(Limit::ArgumentCount)));
}

#[test]
fn limits_come_from_the_session() {
    let mut session = Session::new();
    session.max_command_length = 2;
    session.max_argument_count = 1;
    assert_eq!(session.interpret("abc"), Err(ShellError::LimitExceeded(Limit::CommandLength)));
    assert_eq!(session.interpret("ab c d"), Err(ShellError::LimitExceeded(Limit::ArgumentCount)));
    assert!(matches!(session.interpret("ab c"), Ok(Action::Run { .. })));
}

#[test]
fn plan_of_no_words_is_nothing() {
    let session = Session::new();
    assert_eq!(session.plan(Vec::new()), Ok(Action::Nothing));
}

#[test]
fn plan_splits_command_and_arguments() {
    let session = Session::new();
    assert_eq!(
        session.plan(owned(&["Make", "-j", "4"])),
        Ok(Action::Run {
            program: "make".to_string(),
            arguments: owned(&["-j", "4"]),
            directory: ".".to_string(),
        })
    );
}

#[test]
fn decide_compares_the_name_as_given() {
    let session = Session::new();
    assert_eq!(
        session.decide("EXIT".to_string(), Vec::new()),
        Action::Run {
            program: "EXIT".to_string(),
            arguments: Vec::new(),
            directory: ".".to_string(),
        }
    );
    assert_eq!(
        session.decide("exit".to_string(), Vec::new()),
        Action::Exit { code: 0, notice: silent() }
    );
}

#[test]
fn exit_wins_where_both_built_ins_share_a_name() {
    let mut session = Session::new();
    session.change_dir_command = "exit".to_string();
    assert_eq!(
        session.decide("exit".to_string(), owned(&["/tmp"])),
        Action::Exit {
            code: 42,
            notice: Report { channel: Channel::Error, bytes: b"Invalid exit code /tmp\n".to_vec() },
        }
    );
}

#[test]
fn same_line_twice_gives_the_same_action() {
    let session = Session::new();
    let first = session.interpret("grep -n \"a b\" file");
    let failed = session.interpret("grep 'open");
    let second = session.interpret("grep -n \"a b\" file");
    assert!(failed.is_err());
    assert_eq!(first, second);
    assert_eq!(
        first,
        Ok(Action::Run {
            program: "grep".to_string(),
            arguments: owned(&["-n", "\"a b\"", "file"]),
            directory: ".".to_string(),
        })
    );
}
