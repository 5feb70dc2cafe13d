//! The marker protocol by which a free-text reply carries an action, and the
//! words by which a user confirms one.
//!
//! A reply that holds `EXECUTE_LAST_COMMAND` asks to run the pending command.
//! Otherwise a reply that holds `COMMAND: ` proposes what stands between that
//! marker and the next backtick. Any other reply is conversation.

use crate::text::{
    chars_of, contains_text, find_first, first_occurrence, is_first_occurrence, is_white_space,
    lemma_first_occurrence_is, lowercase_of, occurs_at, same_text, text_view, to_lowercase,
    trim, trim_end_of, trim_start_of, trimmed,
};
use vstd::prelude::*;
use vstd::slice::slice_subrange;

verus! {

/// The marker by which a reply asks to run the pending command.
pub const EXECUTE_MARKER: &'static str = "EXECUTE_LAST_COMMAND";

/// The marker that introduces a proposed command.
pub const COMMAND_MARKER: &'static str = "COMMAND: ";

/// The character that ends a proposed command.
pub const COMMAND_TERMINATOR: char = '`';

/// The marker by which a reply asks to run the pending command.
pub open spec fn execute_marker() -> Seq<char> {
    EXECUTE_MARKER@
}

/// The marker that introduces a proposed command.
pub open spec fn command_marker() -> Seq<char> {
    COMMAND_MARKER@
}

/// The text that ends a proposed command: one backtick.
pub open spec fn command_terminator() -> Seq<char> {
    seq![COMMAND_TERMINATOR]
}

/// The command that `reply` proposes: what stands between the first
/// `COMMAND: ` and the next backtick, trimmed. `None` where either is missing.
pub open spec fn proposed_command(reply: Seq<char>) -> Option<Seq<char>> {
    match first_occurrence(reply, command_marker()) {
        None => None,
        Some(at) => {
            let rest = reply.skip(at + command_marker().len());
            match first_occurrence(rest, command_terminator()) {
                None => None,
                Some(end) => Some(trimmed(rest.take(end))),
            }
        },
    }
}

/// What a reply of the language model asks the engine to do.
#[derive(Clone, Debug, PartialEq, Eq)]
pub enum ReplyAction {
    /// Plain conversation: the text is shown as it is.
    Conversational(String),
    /// The reply proposes `command`; `reply_text` is shown as it is.
    ProposeCommand { reply_text: String, command: String },
    /// The reply asks to run the pending command; it is not shown.
    ExecuteLast,
}

/// The mathematical value of a `ReplyAction`.
pub enum Directive {
    Conversational(Seq<char>),
    ProposeCommand { reply_text: Seq<char>, command: Seq<char> },
    ExecuteLast,
}

impl View for ReplyAction {
    type V = Directive;

    open spec fn view(&self) -> Directive {
        match self {
            ReplyAction::Conversational(text) => Directive::Conversational(text@),
            ReplyAction::ProposeCommand { reply_text, command } => Directive::ProposeCommand {
                reply_text: reply_text@,
                command: command@,
            },
            ReplyAction::ExecuteLast => Directive::ExecuteLast,
        }
    }
}

/// What `reply` asks for. The execution marker wins over a proposal.
pub open spec fn parsed(reply: Seq<char>) -> Directive {
    if contains_text(reply, execute_marker()) {
        Directive::ExecuteLast
    } else {
        match proposed_command(reply) {
            Some(command) => Directive::ProposeCommand { reply_text: reply, command },
            None => Directive::Conversational(reply),
        }
    }
}

/// Whether `reply` holds the marker that asks to run the pending command.
pub fn asks_execution(reply: &str) -> (asks: bool)
    ensures
        asks == contains_text(reply@, execute_marker()),
{
    let chars = chars_of(reply);
    let marker = chars_of(EXECUTE_MARKER);
    find_first(chars.as_slice(), marker.as_slice()).is_some()
}

/// The command that `reply` proposes, if it proposes one.
pub fn extract_command(reply: &str) -> (command: Option<String>)
    ensures
        text_view(command) == proposed_command(reply@),
{
    let chars = chars_of(reply);
    let marker = chars_of(COMMAND_MARKER);
    let found = find_first(chars.as_slice(), marker.as_slice());
    if found.is_none() {
        return None;
    }
    let at: usize = found.unwrap();
    let total: usize = chars.len();
    assert(occurs_at(chars@, at as int, marker@));
    let from: usize = at + marker.len();
    let rest = slice_subrange(chars.as_slice(), from, total);
    let mut tick: Vec<char> = Vec::new();
    tick.push(COMMAND_TERMINATOR);
    assert(tick@ =~= command_terminator());
    match find_first(rest, tick.as_slice()) {
        Some(end) => {
            let body = reply.substring_char(from, from + end);
            assert(body@ =~= reply@.skip(from as int).take(end as int));
            Some(trim(body).to_owned())
        },
        None => None,
    }
}

/// Reads the action out of a reply.
pub fn parse_reply(reply: String) -> (action: ReplyAction)
    ensures
        action@ == parsed(reply@),
{
    if asks_execution(reply.as_str()) {
        return ReplyAction::ExecuteLast;
    }
    match extract_command(reply.as_str()) {
        Some(command) => ReplyAction::ProposeCommand { reply_text: reply, command },
        None => ReplyAction::Conversational(reply),
    }
}

/// A command that stands between the first `COMMAND: ` of a reply and a
/// backtick, and holds no backtick itself, is the command proposed, trimmed,
/// whatever stands before the marker and behind the backtick.
pub proof fn lemma_proposal_is_read(reply: Seq<char>, at: int, command: Seq<char>)
    requires
        is_first_occurrence(reply, at, command_marker()),
        occurs_at(reply, at + command_marker().len(), command + command_terminator()),
        !command.contains(COMMAND_TERMINATOR),
    ensures
        proposed_command(reply) == Some(trimmed(command)),
{
    let from = at + command_marker().len();
    let rest = reply.skip(from);
    let quoted = command + command_terminator();
    let end = command.len() as int;
    lemma_first_occurrence_is(reply, at, command_marker());
    assert forall|i: int| 0 <= i < quoted.len() implies rest[i] == quoted[i] by {
        assert(reply.subrange(from, from + quoted.len())[i] == reply[from + i]);
    }
    assert(rest.subrange(end, end + 1) =~= command_terminator());
    assert forall|earlier: int| 0 <= earlier < end implies !occurs_at(
        rest,
        earlier,
        command_terminator(),
    ) by {
        if occurs_at(rest, earlier, command_terminator()) {
            assert(rest.subrange(earlier, earlier + 1)[0] == COMMAND_TERMINATOR);
            assert(command[earlier] == COMMAND_TERMINATOR);
        }
    }
    lemma_first_occurrence_is(rest, end, command_terminator());
    assert(rest.take(end) =~= command);
}

/// A reply whose first `COMMAND: ` is followed by ``ls -la` `` and that
/// holds no execution marker proposes exactly `ls -la`, whatever else it says.
pub proof fn lemma_ls_la_is_proposed(reply: Seq<char>, at: int)
    requires
        is_first_occurrence(reply, at, command_marker()),
        occurs_at(reply, at + command_marker().len(), "ls -la`"@),
        !contains_text(reply, execute_marker()),
    ensures
        parsed(reply) == (Directive::ProposeCommand { reply_text: reply, command: "ls -la"@ }),
{
    reveal_strlit("ls -la`");
    reveal_strlit("ls -la");
    let command = "ls -la"@;
    assert(command + command_terminator() =~= "ls -la`"@);
    assert(!command.contains(COMMAND_TERMINATOR));
    lemma_proposal_is_read(reply, at, command);
    assert(!is_white_space(command.first()));
    assert(trim_start_of(command) == command);
    assert(!is_white_space(command.last()));
    assert(trim_end_of(command) == command);
}

/// Whether `token` is one of the words that confirm a proposal.
pub open spec fn is_affirmation_token(token: Seq<char>) -> bool {
    ||| token == "yes"@
    ||| token == "y"@
    ||| token == "sure"@
    ||| token == "go ahead"@
    ||| token == "execute"@
    ||| token == "run it"@
    ||| token == "do it"@
}

/// `text` trimmed and in lower case.
pub open spec fn normalized(text: Seq<char>) -> Seq<char> {
    lowercase_of(trimmed(text))
}

/// Whether `text`, once normalized, confirms a proposal.
pub open spec fn is_affirmative(text: Seq<char>) -> bool {
    is_affirmation_token(normalized(text))
}

/// `text` trimmed and in lower case.
pub fn normalize(text: &str) -> (out: String)
    ensures
        out@ == normalized(text@),
{
    to_lowercase(trim(text))
}

/// Whether the normalized text `token` is exactly one of the words
/// `yes`, `y`, `sure`, `go ahead`, `execute`, `run it`, `do it`.
pub fn is_affirmation(token: &str) -> (affirms: bool)
    ensures
        affirms == is_affirmation_token(token@),
{
    same_text(token, "yes") || same_text(token, "y") || same_text(token, "sure") || same_text(
        token,
        "go ahead",
    ) || same_text(token, "execute") || same_text(token, "run it") || same_text(token, "do it")
}

/// Whether what the user typed confirms a proposal, whatever its case and
/// the white space around it.
pub fn confirms(text: &str) -> (affirms: bool)
    ensures
        affirms == is_affirmative(text@),
{
    let token = normalize(text);
    is_affirmation(token.as_str())
}

} // verus!
