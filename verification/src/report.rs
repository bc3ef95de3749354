//! What a command left behind, and what the operator gets to see of it.

use vstd::prelude::*;
use vstd::string::{StrSliceExecFns, StringExecFns};
use vstd::utf8::encode_utf8;
use crate::error::ShellError;
use crate::number::{decimal, render};

verus! {

/// The two channels on which the shell writes to its operator.
#[derive(Clone, Copy, Debug, PartialEq, Eq, Structural)]
pub enum Channel {
    /// Where the output of commands goes.
    Output,
    /// Where errors and the prompt go.
    Error,
}

/// Bytes to write, and the channel to write them on.
#[derive(Clone, Debug, PartialEq, Eq)]
pub struct Report {
    pub channel: Channel,
    pub bytes: Vec<u8>,
}

/// A report as a mathematical value.
pub struct ReportView {
    pub channel: Channel,
    pub bytes: Seq<u8>,
}

impl View for Report {
    type V = ReportView;

    open spec fn view(&self) -> ReportView {
        ReportView { channel: self.channel, bytes: self.bytes@ }
    }
}

/// How a command ended.
#[derive(Clone, Copy, Debug, PartialEq, Eq, Structural)]
pub enum Status {
    /// It ran and reported success.
    Succeeded,
    /// It ran and ended with this exit code.
    Failed(i32),
    /// Nothing was run: the line was blank or a built-in took care of it.
    NotRun,
}

/// What a command left behind: how it ended and what it wrote.
#[derive(Clone, Debug, PartialEq, Eq)]
pub struct Outcome {
    pub status: Status,
    pub stdout: Vec<u8>,
    pub stderr: Vec<u8>,
}

/// An outcome as a mathematical value.
pub struct OutcomeView {
    pub status: Status,
    pub stdout: Seq<u8>,
    pub stderr: Seq<u8>,
}

impl View for Outcome {
    type V = OutcomeView;

    open spec fn view(&self) -> OutcomeView {
        OutcomeView { status: self.status, stdout: self.stdout@, stderr: self.stderr@ }
    }
}

/// The line that tells the operator that a command failed. The status is
/// written as for a process that ended by itself: `exit status: ` and the
/// code.
pub open spec fn failure_line(code: i32) -> Seq<char> {
    "error: command exited with exit status: "@ + decimal(code as int) + "\n"@
}

/// What the operator sees of an outcome. The output of a command that
/// succeeded goes to the output channel, and so does the empty output of a
/// line that ran nothing. Of a command that failed the operator sees, on the
/// error channel, what it wrote there and then the failure line.
pub open spec fn outcome_report(outcome: OutcomeView) -> ReportView {
    match outcome.status {
        Status::Failed(code) => ReportView {
            channel: Channel::Error,
            bytes: outcome.stderr + encode_utf8(failure_line(code)),
        },
        _ => ReportView { channel: Channel::Output, bytes: outcome.stdout },
    }
}

/// What the operator sees of an error: its message and a line end, on the
/// error channel.
pub open spec fn error_report(error: ShellError) -> ReportView {
    ReportView { channel: Channel::Error, bytes: encode_utf8(error.message_text() + "\n"@) }
}

impl Outcome {
    /// The outcome of a line that ran nothing: nothing was written.
    pub open spec fn not_run_view() -> OutcomeView {
        OutcomeView { status: Status::NotRun, stdout: Seq::empty(), stderr: Seq::empty() }
    }

    /// The outcome of a line that ran nothing.
    pub fn not_run() -> (r: Outcome)
        ensures
            r@ == Outcome::not_run_view(),
    {
        Outcome { status: Status::NotRun, stdout: Vec::new(), stderr: Vec::new() }
    }
}

/// The prompt that asks the operator for a line. It goes to the error
/// channel, so that the output channel carries the output of commands and
/// nothing else.
pub fn prompt() -> (r: Report)
    ensures
        r@ == (ReportView { channel: Channel::Error, bytes: encode_utf8("$ "@) }),
{
    Report { channel: Channel::Error, bytes: "$ ".as_bytes_vec() }
}

/// Turns the result of one line into what the operator sees of it.
pub fn report(result: &Result<Outcome, ShellError>) -> (r: Report)
    ensures
        r@ == match *result {
            Ok(outcome) => outcome_report(outcome@),
            Err(error) => error_report(error),
        },
{
    match result {
        Ok(outcome) => match outcome.status {
            Status::Failed(code) => {
                let mut line = String::from_str("error: command exited with exit status: ");
                line.append(render(code).as_str());
                line.append("\n");
                let mut bytes = outcome.stderr.clone();
                let mut tail = line.as_str().as_bytes_vec();
                bytes.append(&mut tail);
                Report { channel: Channel::Error, bytes }
            },
            _ => Report { channel: Channel::Output, bytes: outcome.stdout.clone() },
        },
        Err(error) => {
            let mut line = error.message();
            line.append("\n");
            Report { channel: Channel::Error, bytes: line.as_str().as_bytes_vec() }
        },
    }
}

} // verus!
