//! What running a command gave, as the text that the user is shown.
//!
//! The command is run by the host. What comes back from it is turned into
//! text here: both streams of a command that ran, or the reason why it did
//! not.

use vstd::prelude::*;

verus! {

/// What is shown for a command that printed nothing.
pub const NO_OUTPUT: &'static str = "Command executed successfully (no output)";

/// What running a command came to.
#[derive(Clone, Debug, PartialEq, Eq)]
pub enum ExecutionOutcome {
    /// The command ran to its end and wrote these bytes to its two streams.
    Completed { stdout: Vec<u8>, stderr: Vec<u8> },
    /// The interpreter could not be started, for the reason given.
    SpawnFailed(String),
    /// The interpreter was started but could not be waited for, for the
    /// reason given.
    WaitFailed(String),
}

// What `String::from_utf8_lossy` returns for the bytes `bytes`.
pub uninterp spec fn utf8_lossy(bytes: Seq<u8>) -> Seq<char>;

/// `String::from_utf8_lossy`: the text that `bytes` encode in UTF-8, with
/// U+FFFD wherever they encode none. The decoding is not restated here; the
/// result is a function of the bytes alone, named `utf8_lossy`.
#[verifier::external_body]
pub(crate) fn decode_lossy(bytes: &[u8]) -> (text: String)
    ensures
        text@ == utf8_lossy(bytes@),
{
    String::from_utf8_lossy(bytes).into_owned()
}

/// The two streams of a command as one text: the standard output first, the
/// standard error behind it, a line break between them where neither is
/// empty, and a fixed notice where both are.
pub open spec fn joined_output(stdout: Seq<char>, stderr: Seq<char>) -> Seq<char> {
    if stdout.len() == 0 && stderr.len() == 0 {
        NO_OUTPUT@
    } else if stdout.len() > 0 && stderr.len() > 0 {
        stdout + "\n"@ + stderr
    } else {
        stdout + stderr
    }
}

/// The text shown for an outcome: the joined streams of a command that ran,
/// or a sentence that says why it did not.
pub open spec fn outcome_text(outcome: ExecutionOutcome) -> Seq<char> {
    match outcome {
        ExecutionOutcome::Completed { stdout, stderr } => joined_output(
            utf8_lossy(stdout@),
            utf8_lossy(stderr@),
        ),
        ExecutionOutcome::SpawnFailed(reason) => "Failed to start command: "@ + reason@,
        ExecutionOutcome::WaitFailed(reason) => "Command execution failed: "@ + reason@,
    }
}

/// The report of a command that was run: the command, then what it printed.
pub open spec fn execution_report(command: Seq<char>, output: Seq<char>) -> Seq<char> {
    "Executing: "@ + command + "\n\nOutput:\n"@ + output
}

/// Joins what a command wrote to its two streams, already decoded, into the
/// one text that is shown.
pub fn join_output(stdout: &str, stderr: &str) -> (text: String)
    ensures
        text@ == joined_output(stdout@, stderr@),
{
    let out_empty = stdout.unicode_len() == 0;
    let err_empty = stderr.unicode_len() == 0;
    if out_empty && err_empty {
        return NO_OUTPUT.to_owned();
    }
    let mut text = stdout.to_owned();
    if !out_empty && !err_empty {
        text.append("\n");
    }
    text.append(stderr);
    text
}

/// The text that the user is shown for what running a command came to. A
/// failure to run it is shown as text too.
pub fn command_output(outcome: &ExecutionOutcome) -> (text: String)
    ensures
        text@ == outcome_text(*outcome),
{
    match outcome {
        ExecutionOutcome::Completed { stdout, stderr } => {
            let out = decode_lossy(stdout.as_slice());
            let err = decode_lossy(stderr.as_slice());
            join_output(out.as_str(), err.as_str())
        },
        ExecutionOutcome::SpawnFailed(reason) => {
            let mut text = "Failed to start command: ".to_owned();
            text.append(reason.as_str());
            text
        },
        ExecutionOutcome::WaitFailed(reason) => {
            let mut text = "Command execution failed: ".to_owned();
            text.append(reason.as_str());
            text
        },
    }
}

/// The message that reports the run of `command` and the `output` it gave.
pub fn report_execution(command: &str, output: &str) -> (report: String)
    ensures
        report@ == execution_report(command@, output@),
{
    let mut report = "Executing: ".to_owned();
    report.append(command);
    report.append("\n\nOutput:\n");
    report.append(output);
    report
}

} // verus!
