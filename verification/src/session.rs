//! The session and the rules of dispatch: what the shell has to do for one
//! line of input.
//!
//! The rules decide; they do not act. `interpret` turns a line into an
//! `Action`, the caller carries it out and, for a change of directory, hands
//! the result back to `Session::change_directory`.

use vstd::prelude::*;
use vstd::string::{StrSliceExecFns, StringExecFns};
use vstd::utf8::encode_utf8;
use crate::error::{Limit, ParseError, ShellError};
use crate::number::{decimal, exit_code_of, law_decimal_reads_back, parse_exit_code, render};
use crate::report::{Channel, Outcome, Report, ReportView};
use crate::text::{lowercase, trimmed};
use crate::tokenizer::{balanced, tokenize, words_of_line};

verus! {

/// The exit code of the shell when the argument of `exit` is no exit code.
pub const INVALID_EXIT_CODE: i32 = 42;

/// What stays from one line to the next.
#[derive(Clone, Debug, PartialEq, Eq)]
pub struct Session {
    /// The directory in which programs are run.
    pub working_directory: String,
    /// The name of the built-in that ends the session.
    pub exit_command: String,
    /// The name of the built-in that changes the working directory.
    pub change_dir_command: String,
    /// The number of characters that a command name may have.
    pub max_command_length: usize,
    /// The number of arguments that a command may have.
    pub max_argument_count: usize,
}

/// A session as a mathematical value.
pub struct SessionView {
    pub working_directory: Seq<char>,
    pub exit_command: Seq<char>,
    pub change_dir_command: Seq<char>,
    pub max_command_length: nat,
    pub max_argument_count: nat,
}

impl View for Session {
    type V = SessionView;

    open spec fn view(&self) -> SessionView {
        SessionView {
            working_directory: self.working_directory@,
            exit_command: self.exit_command@,
            change_dir_command: self.change_dir_command@,
            max_command_length: self.max_command_length as nat,
            max_argument_count: self.max_argument_count as nat,
        }
    }
}

/// What the shell has to do next.
#[derive(Clone, Debug, PartialEq, Eq)]
pub enum Action {
    /// Nothing: the line was blank, or it was the change of directory
    /// without a target.
    Nothing,
    /// Write the notice, then end the process with the code.
    Exit { code: i32, notice: Report },
    /// Look the target up and hand what was found to
    /// `Session::change_directory`.
    ChangeDirectory { target: String },
    /// Run the program with the arguments in the directory and capture what
    /// it writes.
    Run { program: String, arguments: Vec<String>, directory: String },
}

/// An action as a mathematical value.
pub enum ActionView {
    Nothing,
    Exit { code: i32, notice: ReportView },
    ChangeDirectory { target: Seq<char> },
    Run { program: Seq<char>, arguments: Seq<Seq<char>>, directory: Seq<char> },
}

impl View for Action {
    type V = ActionView;

    open spec fn view(&self) -> ActionView {
        match self {
            Action::Nothing => ActionView::Nothing,
            Action::Exit { code, notice } => ActionView::Exit { code: *code, notice: notice@ },
            Action::ChangeDirectory { target } => ActionView::ChangeDirectory { target: target@ },
            Action::Run { program, arguments, directory } => ActionView::Run {
                program: program@,
                arguments: arguments.deep_view(),
                directory: directory@,
            },
        }
    }
}

/// How the session ends on `exit` with the given arguments. Without an
/// argument it ends with code 0 and says nothing. Otherwise the first
/// argument counts and the others are ignored: an exit code is announced on
/// the output channel and becomes the code; anything else is reported on the
/// error channel, and the code is `INVALID_EXIT_CODE`.
pub open spec fn exit_of(arguments: Seq<Seq<char>>) -> ActionView {
    if arguments.len() == 0 {
        ActionView::Exit {
            code: 0,
            notice: ReportView { channel: Channel::Output, bytes: Seq::empty() },
        }
    } else {
        match exit_code_of(arguments[0]) {
            Some(code) => ActionView::Exit {
                code,
                notice: ReportView {
                    channel: Channel::Output,
                    bytes: encode_utf8("exit code "@ + decimal(code as int) + "\n"@),
                },
            },
            None => ActionView::Exit {
                code: INVALID_EXIT_CODE,
                notice: ReportView {
                    channel: Channel::Error,
                    bytes: encode_utf8("Invalid exit code "@ + arguments[0] + "\n"@),
                },
            },
        }
    }
}

/// What a command asks for. The command name is compared as it stands, first
/// with the name of the exit built-in, then with that of the change of
/// directory; any other name is a program to run in the working directory.
/// A change of directory without a target changes nothing, and of several
/// targets the first counts.
pub open spec fn decision(
    session: SessionView,
    command: Seq<char>,
    arguments: Seq<Seq<char>>,
) -> ActionView {
    if command == session.exit_command {
        exit_of(arguments)
    } else if command == session.change_dir_command {
        if arguments.len() == 0 {
            ActionView::Nothing
        } else {
            ActionView::ChangeDirectory { target: arguments[0] }
        }
    } else {
        ActionView::Run { program: command, arguments, directory: session.working_directory }
    }
}

/// What the words of a line ask for. No word asks for nothing. The first
/// word is the command and the others are its arguments. The command name is
/// measured as it was typed, before anything else is looked at; then the
/// arguments are counted; then the name is put in lower case and decides.
pub open spec fn plan_of(session: SessionView, words: Seq<Seq<char>>) -> Result<
    ActionView,
    ShellError,
> {
    if words.len() == 0 {
        Ok(ActionView::Nothing)
    } else if words[0].len() > session.max_command_length {
        Err(ShellError::LimitExceeded(Limit::CommandLength))
    } else if words.len() - 1 > session.max_argument_count {
        Err(ShellError::LimitExceeded(Limit::ArgumentCount))
    } else {
        Ok(decision(session, lowercase(words[0]), words.drop_first()))
    }
}

/// What a line asks for: what its words ask for, unless it ends inside a
/// quoted region.
pub open spec fn reading_of(session: SessionView, line: Seq<char>) -> Result<
    ActionView,
    ShellError,
> {
    if balanced(trimmed(line)) {
        plan_of(session, words_of_line(line))
    } else {
        Err(ShellError::Parse(ParseError::UnmatchedQuote))
    }
}

/// Whether `result` stands for `reading`: the same error, or an action with
/// that view.
pub open spec fn stands_for(
    result: Result<Action, ShellError>,
    reading: Result<ActionView, ShellError>,
) -> bool {
    match result {
        Ok(action) => reading == Ok::<ActionView, ShellError>(action@),
        Err(error) => reading == Err::<ActionView, ShellError>(error),
    }
}

/// Ends the session as `exit_of` says.
fn leave(arguments: &Vec<String>) -> (r: Action)
    ensures
        r@ == exit_of(arguments.deep_view()),
{
    if arguments.len() == 0 {
        return Action::Exit {
            code: 0,
            notice: Report { channel: Channel::Output, bytes: Vec::new() },
        };
    }
    let given = arguments[0].as_str();
    match parse_exit_code(given) {
        Some(code) => {
            let mut line = String::from_str("exit code ");
            line.append(render(code).as_str());
            line.append("\n");
            Action::Exit {
                code,
                notice: Report { channel: Channel::Output, bytes: line.as_str().as_bytes_vec() },
            }
        },
        None => {
            let mut line = String::from_str("Invalid exit code ");
            line.append(given);
            line.append("\n");
            Action::Exit {
                code: INVALID_EXIT_CODE,
                notice: Report { channel: Channel::Error, bytes: line.as_str().as_bytes_vec() },
            }
        },
    }
}

impl Session {
    /// The session at the start: the working directory is `.`, the
    /// built-ins are `exit` and `cd`, a command name may have 1000
    /// characters and a command 100 arguments.
    pub fn new() -> (r: Session)
        ensures
            r.working_directory@ == "."@,
            r.exit_command@ == "exit"@,
            r.change_dir_command@ == "cd"@,
            r.max_command_length == 1000,
            r.max_argument_count == 100,
    {
        Session {
            working_directory: String::from_str("."),
            exit_command: String::from_str("exit"),
            change_dir_command: String::from_str("cd"),
            max_command_length: 1000,
            max_argument_count: 100,
        }
    }

    /// Decides what a command asks for. `command` is the name as it is
    /// compared with the built-ins: the caller has put it in lower case.
    pub fn decide(&self, command: String, arguments: Vec<String>) -> (r: Action)
        ensures
            r@ == decision(self@, command@, arguments.deep_view()),
    {
        if command == self.exit_command {
            leave(&arguments)
        } else if command == self.change_dir_command {
            if arguments.len() == 0 {
                Action::Nothing
            } else {
                Action::ChangeDirectory { target: arguments[0].clone() }
            }
        } else {
            Action::Run { program: command, arguments, directory: self.working_directory.clone() }
        }
    }

    /// Decides what the words of a line ask for, or says which limit they
    /// exceed.
    pub fn plan(&self, words: Vec<String>) -> (r: Result<Action, ShellError>)
        ensures
            stands_for(r, plan_of(self@, words.deep_view())),
    {
        let ghost all = words.deep_view();
        if words.len() == 0 {
            return Ok(Action::Nothing);
        }
        if words[0].as_str().unicode_len() > self.max_command_length {
            return Err(ShellError::LimitExceeded(Limit::CommandLength));
        }
        if words.len() - 1 > self.max_argument_count {
            return Err(ShellError::LimitExceeded(Limit::ArgumentCount));
        }
        let mut arguments = words;
        let typed = arguments.remove(0);
        assert(arguments.deep_view() == all.drop_first());
        let command = typed.as_str().to_lowercase();
        Ok(self.decide(command, arguments))
    }

    /// Decides what a line asks for. A line that cannot be split into words,
    /// or whose words exceed a limit, asks for nothing and yields the error.
    pub fn interpret(&self, line: &str) -> (r: Result<Action, ShellError>)
        ensures
            stands_for(r, reading_of(self@, line@)),
    {
        match tokenize(line) {
            Ok(words) => self.plan(words),
            Err(error) => Err(ShellError::Parse(error)),
        }
    }

    /// Takes in what the lookup of a target directory found: its absolute
    /// name, or nothing where the target does not exist or has no usable
    /// name. With a name the working directory becomes that name; without
    /// one the session stays as it is and the error is `NotFound`.
    pub fn change_directory(&mut self, found: Option<String>) -> (r: Result<Outcome, ShellError>)
        ensures
            match found {
                Some(name) => r matches Ok(outcome) && outcome@ == Outcome::not_run_view()
                    && final(self)@ == (SessionView { working_directory: name@, ..old(self)@ }),
                None => r == Err::<Outcome, ShellError>(ShellError::NotFound) && final(self)@ == old(
                    self,
                )@,
            },
    {
        match found {
            Some(name) => {
                self.working_directory = name;
                Ok(Outcome::not_run())
            },
            None => Err(ShellError::NotFound),
        }
    }
}

/// What a line asks for depends on the session and the line and on nothing
/// else: two results for one line in one session are the same error or
/// actions with the same view, whatever was read in between.
pub proof fn law_same_line_same_result(
    session: SessionView,
    line: Seq<char>,
    first: Result<Action, ShellError>,
    second: Result<Action, ShellError>,
)
    requires
        stands_for(first, reading_of(session, line)),
        stands_for(second, reading_of(session, line)),
    ensures
        match (first, second) {
            (Ok(a), Ok(b)) => a@ == b@,
            (Err(e), Err(f)) => e == f,
            _ => false,
        },
{
}

/// A line that ends inside a quoted region asks for no action, whatever the
/// session and whatever else the line holds.
pub proof fn law_open_quote_asks_nothing(session: SessionView, line: Seq<char>)
    requires
        !balanced(trimmed(line)),
    ensures
        reading_of(session, line) == Err::<ActionView, ShellError>(
            ShellError::Parse(ParseError::UnmatchedQuote),
        ),
{
}

/// A command name with more characters than the session allows is refused,
/// whatever the name is and whatever follows it.
pub proof fn law_long_command_refused(session: SessionView, words: Seq<Seq<char>>)
    requires
        words.len() > 0,
        words[0].len() > session.max_command_length,
    ensures
        plan_of(session, words) == Err::<ActionView, ShellError>(
            ShellError::LimitExceeded(Limit::CommandLength),
        ),
{
}

/// `exit` followed by an exit code in decimal notation ends the session with
/// that code and announces it, whatever follows the code.
pub proof fn law_exit_with_code(
    session: SessionView,
    code: i32,
    others: Seq<Seq<char>>,
)
    ensures
        decision(session, session.exit_command, seq![decimal(code as int)] + others)
            == (ActionView::Exit {
            code,
            notice: ReportView {
                channel: Channel::Output,
                bytes: encode_utf8("exit code "@ + decimal(code as int) + "\n"@),
            },
        }),
{
    law_decimal_reads_back(code as int);
}

/// Nothing but the exit built-in ends the session: where the words of a
/// line ask for the exit, the first of them, in lower case, is the name of
/// that built-in.
pub proof fn law_only_exit_ends(session: SessionView, words: Seq<Seq<char>>)
    requires
        plan_of(session, words) matches Ok(ActionView::Exit { .. }),
    ensures
        words.len() > 0,
        lowercase(words[0]) == session.exit_command,
{
}

/// The change of directory without a target asks for nothing.
pub proof fn law_bare_change_asks_nothing(session: SessionView)
    requires
        session.change_dir_command != session.exit_command,
    ensures
        decision(session, session.change_dir_command, Seq::empty()) == ActionView::Nothing,
{
}

/// Once the working directory has changed, every program is run in the new
/// one.
pub proof fn law_programs_follow_directory(
    session: SessionView,
    name: Seq<char>,
    command: Seq<char>,
    arguments: Seq<Seq<char>>,
)
    requires
        command != session.exit_command,
        command != session.change_dir_command,
    ensures
        decision(SessionView { working_directory: name, ..session }, command, arguments)
            == (ActionView::Run { program: command, arguments, directory: name }),
{
}

} // verus!
