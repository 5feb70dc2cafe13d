//! Messages and the sessions that keep them in the order they were said.

use crate::model::ConversationMessage;
use crate::text::{lemma_trim_end_is_prefix, trim_end, trim_end_of};
use vstd::prelude::*;

verus! {

/// A point in time: whole seconds since the Unix epoch, and the nanoseconds
/// into that second.
#[derive(Clone, Copy, Debug, PartialEq, Eq, Structural)]
pub struct Timestamp {
    pub secs: i64,
    pub nanos: u32,
}

/// chrono's `Utc::now`, read off with `DateTime::timestamp` and
/// `DateTime::timestamp_subsec_nanos`. The reading depends on the clock of
/// the host, so nothing is claimed of it. chrono panics where that clock
/// stands before 1970.
#[verifier::external_body]
pub(crate) fn current_time() -> (now: Timestamp) {
    let now = chrono::Utc::now();
    Timestamp { secs: now.timestamp(), nanos: now.timestamp_subsec_nanos() }
}

/// uuid's `Uuid::new_v4`, written out by its `Display`. The identifier is
/// drawn at random, so nothing is claimed of it. uuid panics where the host
/// gives no random bytes.
#[verifier::external_body]
pub(crate) fn fresh_session_id() -> (id: String) {
    uuid::Uuid::new_v4().to_string()
}

/// One message in the chat log.
#[derive(Clone, Debug, PartialEq, Eq)]
pub struct ChatMessage {
    pub content: String,
    pub is_user: bool,
    pub timestamp: Timestamp,
    pub is_command: bool,
    pub executed: bool,
}

/// The mathematical value of a `ChatMessage`.
pub struct MessageView {
    pub content: Seq<char>,
    pub is_user: bool,
    pub timestamp: Timestamp,
    pub is_command: bool,
    pub executed: bool,
}

impl View for ChatMessage {
    type V = MessageView;

    open spec fn view(&self) -> MessageView {
        MessageView {
            content: self.content@,
            is_user: self.is_user,
            timestamp: self.timestamp,
            is_command: self.is_command,
            executed: self.executed,
        }
    }
}

/// What the user said at `at`.
pub open spec fn user_message(content: Seq<char>, at: Timestamp) -> MessageView {
    MessageView { content, is_user: true, timestamp: at, is_command: false, executed: false }
}

/// What the assistant said at `at`.
pub open spec fn assistant_message(content: Seq<char>, at: Timestamp) -> MessageView {
    MessageView { content, is_user: false, timestamp: at, is_command: false, executed: false }
}

impl ChatMessage {
    /// A message of the user.
    pub fn from_user(content: String, at: Timestamp) -> (message: ChatMessage)
        ensures
            message@ == user_message(content@, at),
    {
        ChatMessage { content, is_user: true, timestamp: at, is_command: false, executed: false }
    }

    /// A message of the assistant.
    pub fn from_assistant(content: String, at: Timestamp) -> (message: ChatMessage)
        ensures
            message@ == assistant_message(content@, at),
    {
        ChatMessage { content, is_user: false, timestamp: at, is_command: false, executed: false }
    }
}

/// The views of `messages`, in order.
pub open spec fn message_views(messages: Seq<ChatMessage>) -> Seq<MessageView> {
    messages.map_values(|m: ChatMessage| m@)
}

/// The title of a session that has no message of the user yet.
pub const NEW_CHAT_TITLE: &'static str = "New Chat";

/// The title of a session that has no message of the user yet.
pub open spec fn untitled() -> Seq<char> {
    NEW_CHAT_TITLE@
}

/// The longest title a prompt can give, in characters.
pub const TITLE_LIMIT: usize = 30;

/// The title that a first prompt gives its session: the first 30 characters
/// of the prompt, without the white space that they end in.
pub open spec fn title_of(prompt: Seq<char>) -> Seq<char> {
    trim_end_of(
        if prompt.len() <= TITLE_LIMIT {
            prompt
        } else {
            prompt.take(TITLE_LIMIT as int)
        },
    )
}

/// A title is never longer than 30 characters, and it is the beginning of
/// the prompt that gave it.
pub proof fn lemma_title_is_short(prompt: Seq<char>)
    ensures
        title_of(prompt).len() <= TITLE_LIMIT,
        title_of(prompt).is_prefix_of(prompt),
{
    let head = if prompt.len() <= TITLE_LIMIT {
        prompt
    } else {
        prompt.take(TITLE_LIMIT as int)
    };
    lemma_trim_end_is_prefix(head);
    assert(title_of(prompt) =~= prompt.take(title_of(prompt).len() as int));
}

/// The title that a first prompt gives its session.
pub fn derive_title(prompt: &str) -> (title: String)
    ensures
        title@ == title_of(prompt@),
        title@.len() <= TITLE_LIMIT,
{
    let length: usize = prompt.unicode_len();
    let kept: usize = if length <= TITLE_LIMIT {
        length
    } else {
        TITLE_LIMIT
    };
    let head = prompt.substring_char(0, kept);
    proof {
        assert(prompt@.subrange(0, prompt@.len() as int) =~= prompt@);
        lemma_title_is_short(prompt@);
    }
    trim_end(head).to_owned()
}

/// A full conversation with its identifier and its title.
#[derive(Clone, Debug, PartialEq, Eq)]
pub struct ChatSession {
    pub id: String,
    pub title: String,
    pub messages: Vec<ChatMessage>,
    pub created_at: Timestamp,
}

/// The mathematical value of a `ChatSession`.
pub struct SessionView {
    pub id: Seq<char>,
    pub title: Seq<char>,
    pub messages: Seq<MessageView>,
    pub created_at: Timestamp,
}

impl View for ChatSession {
    type V = SessionView;

    open spec fn view(&self) -> SessionView {
        SessionView {
            id: self.id@,
            title: self.title@,
            messages: message_views(self.messages@),
            created_at: self.created_at,
        }
    }
}

impl SessionView {
    /// A session with the identifier `id`, made at `at`, that holds nothing yet.
    pub open spec fn empty(id: Seq<char>, at: Timestamp) -> SessionView {
        SessionView { id, title: untitled(), messages: Seq::empty(), created_at: at }
    }

    /// Whether the user has said anything in this session.
    pub open spec fn has_user_message(self) -> bool {
        exists|i: int| 0 <= i < self.messages.len() && (#[trigger] self.messages[i]).is_user
    }

    /// This session after the user said `prompt` at `at`. The first thing
    /// the user says gives the session its title; the title then stays.
    pub open spec fn with_user_message(self, prompt: Seq<char>, at: Timestamp) -> SessionView {
        SessionView {
            title: if self.has_user_message() {
                self.title
            } else {
                title_of(prompt)
            },
            messages: self.messages.push(user_message(prompt, at)),
            ..self
        }
    }

    /// This session after the assistant said `content` at `at`.
    pub open spec fn with_assistant_message(
        self,
        content: Seq<char>,
        at: Timestamp,
    ) -> SessionView {
        SessionView { messages: self.messages.push(assistant_message(content, at)), ..self }
    }

    /// The messages as turns of a conversation: what was said and by whom.
    pub open spec fn history(self) -> Seq<(Seq<char>, bool)> {
        self.messages.map_values(|m: MessageView| (m.content, m.is_user))
    }
}

impl ChatSession {
    /// A session with the identifier `id`, made at `created_at`, titled
    /// `New Chat` and without messages.
    pub fn new(id: String, created_at: Timestamp) -> (session: ChatSession)
        ensures
            session@ == SessionView::empty(id@, created_at),
    {
        let session = ChatSession {
            id,
            title: NEW_CHAT_TITLE.to_owned(),
            messages: Vec::new(),
            created_at,
        };
        assert(session@.messages =~= Seq::empty());
        session
    }

    /// Whether the user has said anything in this session.
    pub fn has_user_message(&self) -> (said: bool)
        ensures
            said == self@.has_user_message(),
    {
        let mut i: usize = 0;
        while i < self.messages.len()
            invariant
                i <= self.messages@.len(),
                forall|j: int| 0 <= j < i ==> !(#[trigger] self@.messages[j]).is_user,
            decreases self.messages@.len() - i,
        {
            if self.messages[i].is_user {
                assert(self@.messages[i as int].is_user);
                return true;
            }
            i += 1;
        }
        false
    }

    /// Appends what the user said at `at`. The first message of the user
    /// gives the session its title.
    pub fn push_user_message(&mut self, prompt: String, at: Timestamp)
        ensures
            final(self)@ == old(self)@.with_user_message(prompt@, at),
    {
        if !self.has_user_message() {
            self.title = derive_title(prompt.as_str());
        }
        self.messages.push(ChatMessage::from_user(prompt, at));
        assert(final(self)@.messages =~= old(self)@.messages.push(user_message(prompt@, at)));
    }

    /// Appends what the assistant said at `at`.
    pub fn push_assistant_message(&mut self, content: String, at: Timestamp)
        ensures
            final(self)@ == old(self)@.with_assistant_message(content@, at),
    {
        self.messages.push(ChatMessage::from_assistant(content, at));
        assert(final(self)@.messages =~= old(self)@.messages.push(
            assistant_message(content@, at),
        ));
    }

    /// The messages as turns of a conversation, oldest first.
    pub fn history(&self) -> (turns: Vec<ConversationMessage>)
        ensures
            turns@.map_values(|t: ConversationMessage| t@) == self@.history(),
    {
        let mut turns: Vec<ConversationMessage> = Vec::new();
        let mut i: usize = 0;
        while i < self.messages.len()
            invariant
                i <= self.messages@.len(),
                turns@.map_values(|t: ConversationMessage| t@) == self@.history().take(i as int),
            decreases self.messages@.len() - i,
        {
            let message = &self.messages[i];
            let ghost told = turns@.map_values(|t: ConversationMessage| t@);
            turns.push(
                ConversationMessage { content: message.content.clone(), is_user: message.is_user },
            );
            proof {
                let turn = (message.content@, message.is_user);
                assert(self@.messages[i as int] == message@);
                assert(self@.history()[i as int] == turn);
                assert(turns@.map_values(|t: ConversationMessage| t@) =~= told.push(turn));
                assert(self@.history().take(i + 1) =~= self@.history().take(i as int).push(turn));
            }
            i += 1;
        }
        assert(self@.history().take(i as int) =~= self@.history());
        turns
    }
}

impl Default for ChatSession {
    /// A session under a fresh random identifier, made now, titled
    /// `New Chat` and without messages.
    fn default() -> (session: ChatSession)
        ensures
            session@.title == untitled(),
            session@.messages.len() == 0,
    {
        ChatSession::new(fresh_session_id(), current_time())
    }
}

} // verus!
