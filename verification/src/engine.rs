//! The conversation engine: what happens, turn by turn, to the session, the
//! pending command and the cache, and what the host is asked to do next.
//!
//! The engine never talks to the language model and never runs a command.
//! Each step returns a `TurnAction`; the host performs it and hands the
//! outcome to the step that the action names.

use crate::cache::ResponseCache;
use crate::config::{Config, ConfigView};
use crate::executor::{execution_report, report_execution};
use crate::model::{ConversationMessage, Model, ModelView};
use crate::pending::PendingCommand;
use crate::protocol::{
    command_marker, confirms, execute_marker, is_affirmation_token, is_affirmative,
    lemma_ls_la_is_proposed, normalized, parse_reply, parsed, Directive, ReplyAction,
};
use crate::session::{
    assistant_message, current_time, untitled, ChatSession, SessionView, Timestamp,
};
use crate::text::{
    contains_text, is_first_occurrence, occurs_at, same_text, text_view, trim, trimmed,
};
use vstd::prelude::*;

verus! {

/// The mode under which the engine remembers replies.
pub const MODE_TAG: &'static str = "unified";

/// What is shown where the language model had nothing to say.
pub const FALLBACK_REPLY: &'static str = "I'm not sure how to respond to that.";

/// The mode under which the engine remembers replies.
pub open spec fn mode_tag() -> Seq<char> {
    MODE_TAG@
}

/// What is shown where the language model had nothing to say.
pub open spec fn fallback_reply() -> Seq<char> {
    FALLBACK_REPLY@
}

/// What comes back from the language model, as plain text: a reply, no
/// reply, or the description of a failure.
pub open spec fn outcome_view(outcome: Result<Option<String>, String>) -> Result<
    Option<Seq<char>>,
    Seq<char>,
> {
    match outcome {
        Ok(Some(text)) => Ok(Some(text@)),
        Ok(None) => Ok(None),
        Err(failure) => Err(failure@),
    }
}

/// The reply that the user is shown for an outcome: the reply itself, the
/// fallback for none, and a failure behind `Error: `.
pub open spec fn reply_for(outcome: Result<Option<Seq<char>>, Seq<char>>) -> Seq<char> {
    match outcome {
        Ok(Some(text)) => text,
        Ok(None) => fallback_reply(),
        Err(failure) => "Error: "@ + failure,
    }
}

/// The reply that the user is shown for an outcome of the language model.
pub fn reply_text(outcome: Result<Option<String>, String>) -> (reply: String)
    ensures
        reply@ == reply_for(outcome_view(outcome)),
{
    match outcome {
        Ok(Some(text)) => text,
        Ok(None) => FALLBACK_REPLY.to_owned(),
        Err(failure) => {
            let mut reply = "Error: ".to_owned();
            reply.append(failure.as_str());
            reply
        },
    }
}

/// Where the conversation stands between two turns.
#[derive(Clone, Copy, Debug, PartialEq, Eq, Structural)]
pub enum ConversationState {
    /// No command awaits confirmation.
    Idle,
    /// A proposed command awaits the user's confirmation.
    AwaitingConfirmation,
}

/// What the host is to do after a step of the engine.
#[derive(Clone, Debug, PartialEq, Eq)]
pub enum TurnAction {
    /// Ask the language model what to reply to `prompt`; `history` is what
    /// was said in the session before it. The outcome goes to
    /// `handle_model_result` with this `prompt`.
    QueryModel { prompt: String, history: Vec<ConversationMessage> },
    /// Run `command`. Its output goes to `record_execution` with this `command`.
    RunCommand { command: String },
    /// The turn is over: store the sessions and show them.
    Finished,
}

/// The mathematical value of a `TurnAction`.
pub enum Step {
    QueryModel { prompt: Seq<char>, history: Seq<(Seq<char>, bool)> },
    RunCommand { command: Seq<char> },
    Finished,
}

impl View for TurnAction {
    type V = Step;

    open spec fn view(&self) -> Step {
        match self {
            TurnAction::QueryModel { prompt, history } => Step::QueryModel {
                prompt: prompt@,
                history: history@.map_values(|t: ConversationMessage| t@),
            },
            TurnAction::RunCommand { command } => Step::RunCommand { command: command@ },
            TurnAction::Finished => Step::Finished,
        }
    }
}

/// The state of the application: the active session, the stored ones, the
/// pending command and the cache.
#[derive(Debug)]
pub struct LlmTermApp {
    pub config: Config,
    pub current_input: String,
    pub current_session: ChatSession,
    pub chat_sessions: Vec<ChatSession>,
    pub selected_session_id: Option<String>,
    /// Replies by mode and prompt, for this run only.
    pub cache: ResponseCache,
    pub is_loading: bool,
    pub pending_command: PendingCommand,
}

/// The mathematical value of the application's state.
pub struct AppView {
    pub config: ConfigView,
    pub current_input: Seq<char>,
    pub current_session: SessionView,
    pub chat_sessions: Seq<SessionView>,
    pub selected_session_id: Option<Seq<char>>,
    pub cache: Map<(Seq<char>, Seq<char>), Seq<char>>,
    pub is_loading: bool,
    pub pending_command: Option<Seq<char>>,
}

/// The views of `sessions`, in order.
pub open spec fn session_views(sessions: Seq<ChatSession>) -> Seq<SessionView> {
    sessions.map_values(|s: ChatSession| s@)
}

impl View for LlmTermApp {
    type V = AppView;

    open spec fn view(&self) -> AppView {
        AppView {
            config: self.config@,
            current_input: self.current_input@,
            current_session: self.current_session@,
            chat_sessions: session_views(self.chat_sessions@),
            selected_session_id: text_view(self.selected_session_id),
            cache: self.cache@,
            is_loading: self.is_loading,
            pending_command: self.pending_command@,
        }
    }
}

/// The session at `at` is the first of `sessions` with the identifier `id`.
pub open spec fn is_first_with_id(sessions: Seq<SessionView>, at: int, id: Seq<char>) -> bool {
    &&& 0 <= at < sessions.len()
    &&& sessions[at].id == id
    &&& forall|earlier: int| 0 <= earlier < at ==> (#[trigger] sessions[earlier]).id != id
}

/// Some session of `sessions` has the identifier `id`.
pub open spec fn has_id(sessions: Seq<SessionView>, id: Seq<char>) -> bool {
    exists|at: int| 0 <= at < sessions.len() && (#[trigger] sessions[at]).id == id
}

impl AppView {
    /// The state at the start of a run that found `stored` on disk and
    /// begins in the session `fresh`.
    pub open spec fn initial(stored: Seq<SessionView>, fresh: SessionView) -> AppView {
        AppView {
            config: ConfigView { model: ModelView::OpenAiGpt4oMini, max_tokens: 1000 },
            current_input: Seq::empty(),
            current_session: fresh,
            chat_sessions: stored,
            selected_session_id: None,
            cache: Map::empty(),
            is_loading: false,
            pending_command: None,
        }
    }

    /// The state, and what the host is to do, once `reply` has been obtained
    /// for the current prompt.
    ///
    /// A reply that asks for execution takes the pending command and has it
    /// run; with nothing pending it changes nothing. A reply that proposes a
    /// command makes it the pending one, in place of any other, and is
    /// shown. Any other reply is shown and leaves what is pending as it was:
    /// a proposal is not withdrawn by talk about something else.
    pub open spec fn after_reply(self, reply: Seq<char>, at: Timestamp) -> (AppView, Step) {
        match parsed(reply) {
            Directive::ExecuteLast => match self.pending_command {
                Some(command) => (
                    AppView { pending_command: None, ..self },
                    Step::RunCommand { command },
                ),
                None => (self, Step::Finished),
            },
            Directive::ProposeCommand { reply_text, command } => (
                AppView {
                    pending_command: Some(command),
                    current_session: self.current_session.with_assistant_message(reply_text, at),
                    ..self
                },
                Step::Finished,
            ),
            Directive::Conversational(text) => (
                AppView {
                    current_session: self.current_session.with_assistant_message(text, at),
                    ..self
                },
                Step::Finished,
            ),
        }
    }

    /// The state, and what the host is to do, once the user has said
    /// `prompt`.
    ///
    /// The prompt always joins the session. If a command is pending and the
    /// prompt confirms it, the command is taken and run. Otherwise a cached
    /// reply is used if there is one, and the language model is asked if
    /// not: it is told what was said in the session before this prompt, and
    /// the prompt.
    pub open spec fn after_prompt(self, prompt: Seq<char>, at: Timestamp) -> (AppView, Step) {
        let said = AppView {
            current_session: self.current_session.with_user_message(prompt, at),
            ..self
        };
        if self.pending_command is Some && is_affirmative(prompt) {
            (
                AppView { pending_command: None, ..said },
                Step::RunCommand { command: self.pending_command->0 },
            )
        } else if self.cache.contains_key((mode_tag(), prompt)) {
            said.after_reply(self.cache[(mode_tag(), prompt)], at)
        } else {
            (said, Step::QueryModel { prompt, history: self.current_session.history() })
        }
    }

    /// The state, and what the host is to do, once the language model has
    /// answered `prompt` with `outcome`. Whatever the outcome, the reply
    /// shown for it is remembered under the prompt.
    ///
    /// A failure is remembered like any reply. Until the run ends, the same
    /// prompt is then answered with the text of the failure and the language
    /// model is not asked again.
    pub open spec fn after_model_result(
        self,
        prompt: Seq<char>,
        outcome: Result<Option<Seq<char>>, Seq<char>>,
        at: Timestamp,
    ) -> (AppView, Step) {
        let reply = reply_for(outcome);
        AppView { cache: self.cache.insert((mode_tag(), prompt), reply), ..self }.after_reply(
            reply,
            at,
        )
    }

    /// The state once `command` has been run and has given `output`.
    pub open spec fn after_execution(
        self,
        command: Seq<char>,
        output: Seq<char>,
        at: Timestamp,
    ) -> AppView {
        AppView {
            current_session: self.current_session.with_assistant_message(
                execution_report(command, output),
                at,
            ),
            ..self
        }
    }

    /// The state once the user has started the new session `fresh`. The
    /// session that was active is stored if anything was said in it.
    pub open spec fn after_new_chat(self, fresh: SessionView) -> AppView {
        AppView {
            chat_sessions: if self.current_session.messages.len() > 0 {
                self.chat_sessions.push(self.current_session)
            } else {
                self.chat_sessions
            },
            current_session: fresh,
            selected_session_id: None,
            current_input: Seq::empty(),
            ..self
        }
    }

    /// The state once the user has asked for the stored session `id`: the
    /// first stored session with that identifier becomes the active one, and
    /// the one that was active takes the last place among the stored ones. A
    /// request for an identifier that no stored session has changes nothing.
    pub open spec fn after_load_session(self, id: Seq<char>) -> AppView {
        if has_id(self.chat_sessions, id) {
            let at = choose|at: int| is_first_with_id(self.chat_sessions, at, id);
            AppView {
                current_session: self.chat_sessions[at],
                chat_sessions: self.chat_sessions.remove(at).push(self.current_session),
                selected_session_id: Some(id),
                ..self
            }
        } else {
            self
        }
    }

    /// Where the conversation stands: it awaits confirmation exactly while a
    /// command is pending.
    pub open spec fn state(self) -> ConversationState {
        if self.pending_command is Some {
            ConversationState::AwaitingConfirmation
        } else {
            ConversationState::Idle
        }
    }

    /// Every session that the application holds: the stored ones, then the
    /// active one.
    pub open spec fn all_sessions(self) -> Seq<SessionView> {
        self.chat_sessions.push(self.current_session)
    }
}

/// Something that happens to the application in the course of a run.
pub enum Event {
    /// The user said `text`.
    Prompt { text: Seq<char>, at: Timestamp },
    /// The language model answered `prompt` with `outcome`.
    ModelResult { prompt: Seq<char>, outcome: Result<Option<Seq<char>>, Seq<char>>, at: Timestamp },
    /// `command` was run and gave `output`.
    Execution { command: Seq<char>, output: Seq<char>, at: Timestamp },
    /// The user started the session `fresh`.
    NewChat { fresh: SessionView },
    /// The user asked for the stored session `id`.
    LoadSession { id: Seq<char> },
}

impl AppView {
    /// The state after `event`.
    pub open spec fn after(self, event: Event) -> AppView {
        match event {
            Event::Prompt { text, at } => self.after_prompt(text, at).0,
            Event::ModelResult { prompt, outcome, at } => self.after_model_result(
                prompt,
                outcome,
                at,
            ).0,
            Event::Execution { command, output, at } => self.after_execution(command, output, at),
            Event::NewChat { fresh } => self.after_new_chat(fresh),
            Event::LoadSession { id } => self.after_load_session(id),
        }
    }

    /// The state after `events`, in their order.
    pub open spec fn after_all(self, events: Seq<Event>) -> AppView
        decreases events.len(),
    {
        if events.len() == 0 {
            self
        } else {
            self.after(events.first()).after_all(events.drop_first())
        }
    }
}

/// No two of `sessions` have the same identifier.
pub open spec fn ids_distinct(sessions: Seq<SessionView>) -> bool {
    forall|i: int, j: int|
        0 <= i < j < sessions.len() ==> (#[trigger] sessions[i]).id != (
        #[trigger] sessions[j]).id
}

/// Exactly one of `sessions` has the identifier `id`.
pub open spec fn listed_once(sessions: Seq<SessionView>, id: Seq<char>) -> bool {
    exists|at: int|
        {
            &&& 0 <= at < sessions.len()
            &&& (#[trigger] sessions[at]).id == id
            &&& forall|other: int|
                0 <= other < sessions.len() && other != at ==> (#[trigger] sessions[other]).id
                    != id
        }
}

/// While the conversation awaits confirmation, a prompt that normalizes to
/// one of the words of confirmation has the pending command run and leaves
/// the conversation idle. The language model is not asked and the cache is
/// not touched; once the run is reported, the conversation is still idle and
/// the report is the last thing said.
pub proof fn lemma_confirmation_runs_pending(
    app: AppView,
    prompt: Seq<char>,
    at: Timestamp,
    output: Seq<char>,
    reported: Timestamp,
)
    requires
        app.state() == ConversationState::AwaitingConfirmation,
        is_affirmation_token(normalized(prompt)),
    ensures
        app.after_prompt(prompt, at).1 == (Step::RunCommand { command: app.pending_command->0 }),
        app.after_prompt(prompt, at).0.state() == ConversationState::Idle,
        app.after_prompt(prompt, at).0.cache == app.cache,
        app.after_prompt(prompt, at).0.after_execution(
            app.pending_command->0,
            output,
            reported,
        ).state() == ConversationState::Idle,
        app.after_prompt(prompt, at).0.after_execution(
            app.pending_command->0,
            output,
            reported,
        ).current_session.messages.last() == assistant_message(
            execution_report(app.pending_command->0, output),
            reported,
        ),
{
}

/// A reply whose first `COMMAND: ` is followed by ``ls -la` `` and that
/// holds no execution marker makes `ls -la` the pending command, whatever
/// else it says and whatever was pending before. The reply is shown as it is.
pub proof fn lemma_ls_la_becomes_pending(
    app: AppView,
    reply: Seq<char>,
    marker_at: int,
    at: Timestamp,
)
    requires
        is_first_occurrence(reply, marker_at, command_marker()),
        occurs_at(reply, marker_at + command_marker().len(), "ls -la`"@),
        !contains_text(reply, execute_marker()),
    ensures
        app.after_reply(reply, at).0.pending_command == Some("ls -la"@),
        app.after_reply(reply, at).0.current_session
            == app.current_session.with_assistant_message(reply, at),
        app.after_reply(reply, at).1 == Step::Finished,
{
    lemma_ls_la_is_proposed(reply, marker_at);
}

/// A reply that asks to run the pending command while the conversation is
/// idle changes nothing and asks nothing of the host: no command is run, no
/// message is added, and the conversation stays idle. Where the reply has
/// just come from the language model, it is remembered under its prompt and
/// that is all.
pub proof fn lemma_execution_request_without_pending(
    app: AppView,
    prompt: Seq<char>,
    reply: Seq<char>,
    at: Timestamp,
)
    requires
        contains_text(reply, execute_marker()),
        app.state() == ConversationState::Idle,
    ensures
        app.after_reply(reply, at) == (app, Step::Finished),
        app.after_reply(reply, at).0.state() == ConversationState::Idle,
        app.after_model_result(prompt, Ok(Some(reply)), at) == (
            AppView { cache: app.cache.insert((mode_tag(), prompt), reply), ..app },
            Step::Finished,
        ),
{
}

/// Nothing that happens removes a reply from the cache.
pub proof fn lemma_cache_keeps_its_keys(
    app: AppView,
    events: Seq<Event>,
    key: (Seq<char>, Seq<char>),
)
    requires
        app.cache.contains_key(key),
    ensures
        app.after_all(events).cache.contains_key(key),
    decreases events.len(),
{
    if events.len() > 0 {
        lemma_cache_keeps_its_keys(app.after(events.first()), events.drop_first(), key);
    }
}

/// Once the language model has been asked about a prompt, whatever came of
/// it, the same prompt is never sent to it again: whatever happens in
/// between, the prompt is then answered by a command that is run or from
/// the cache.
pub proof fn lemma_prompt_is_asked_once(
    app: AppView,
    prompt: Seq<char>,
    outcome: Result<Option<Seq<char>>, Seq<char>>,
    answered: Timestamp,
    events: Seq<Event>,
    again: Timestamp,
)
    ensures
        !(app.after_model_result(prompt, outcome, answered).0.after_all(events).after_prompt(
            prompt,
            again,
        ).1 is QueryModel),
{
    let answered_state = app.after_model_result(prompt, outcome, answered).0;
    assert(answered_state.cache.contains_key((mode_tag(), prompt)));
    lemma_cache_keeps_its_keys(answered_state, events, (mode_tag(), prompt));
}

/// A turn only ever adds to the active session: what was said stays said,
/// in its order, under the same identifier, and the stored sessions are not
/// touched.
pub proof fn lemma_turn_only_appends(app: AppView, event: Event)
    requires
        event is Prompt || event is ModelResult || event is Execution,
    ensures
        app.after(event).chat_sessions == app.chat_sessions,
        app.after(event).current_session.id == app.current_session.id,
        app.after(event).current_session.created_at == app.current_session.created_at,
        app.current_session.messages.is_prefix_of(app.after(event).current_session.messages),
{
}

/// Once the user has said something in a session, nothing that is said
/// later changes its title.
pub proof fn lemma_title_is_set_once(app: AppView, event: Event)
    requires
        event is Prompt || event is ModelResult || event is Execution,
        app.current_session.has_user_message(),
    ensures
        app.after(event).current_session.title == app.current_session.title,
        app.after(event).current_session.has_user_message(),
{
    let before = app.current_session.messages;
    let after = app.after(event).current_session.messages;
    let said = choose|i: int| 0 <= i < before.len() && (#[trigger] before[i]).is_user;
    assert(before.is_prefix_of(after));
    assert(after[said] == before[said]);
}

/// Loading a session swaps sessions and changes none: the sessions held
/// afterwards are those held before, in another order.
pub proof fn lemma_loading_keeps_every_session(app: AppView, id: Seq<char>)
    ensures
        app.after_load_session(id).all_sessions().to_multiset() == app.all_sessions().to_multiset(),
{
    let before = app.all_sessions();
    let after = app.after_load_session(id).all_sessions();
    if has_id(app.chat_sessions, id) {
        let at = choose|at: int| is_first_with_id(app.chat_sessions, at, id);
        let witness = choose|at: int| 0 <= at < app.chat_sessions.len() && (
        #[trigger] app.chat_sessions[at]).id == id;
        lemma_first_with_id_exists(app.chat_sessions, witness, id);
        let stored = app.chat_sessions;
        let loaded = stored[at];
        let active = app.current_session;
        let rest = stored.remove(at);
        broadcast use vstd::seq_lib::group_to_multiset_ensures;
        // Taking the loaded session out and putting it back at the end keeps
        // what is held.
        assert(stored.to_multiset() =~= rest.to_multiset().insert(loaded)) by {
            stored.to_multiset_ensures();
            assert(stored =~= rest.insert(at, loaded));
        }
        assert(before.to_multiset() =~= stored.to_multiset().insert(active));
        assert(after.to_multiset() =~= rest.push(active).to_multiset().insert(loaded));
        assert(rest.push(active).to_multiset() =~= rest.to_multiset().insert(active));
        assert(after.to_multiset() =~= before.to_multiset());
    }
}

/// Among sessions of which one has the identifier `id`, one is the first
/// to have it.
proof fn lemma_first_with_id_exists(sessions: Seq<SessionView>, bound: int, id: Seq<char>)
    requires
        0 <= bound < sessions.len(),
        sessions[bound].id == id,
    ensures
        exists|at: int| is_first_with_id(sessions, at, id),
    decreases bound,
{
    if exists|earlier: int| 0 <= earlier < bound && (#[trigger] sessions[earlier]).id == id {
        let earlier = choose|earlier: int|
            0 <= earlier < bound && (#[trigger] sessions[earlier]).id == id;
        lemma_first_with_id_exists(sessions, earlier, id);
    } else {
        assert(is_first_with_id(sessions, bound, id));
    }
}

/// Where no two sessions share an identifier, loading the session `id`
/// keeps it so, and the sessions then hold exactly one with that
/// identifier: the active one, if `id` was stored.
pub proof fn lemma_loaded_session_is_listed_once(app: AppView, id: Seq<char>)
    requires
        ids_distinct(app.all_sessions()),
        has_id(app.all_sessions(), id),
    ensures
        ids_distinct(app.after_load_session(id).all_sessions()),
        listed_once(app.after_load_session(id).all_sessions(), id),
        has_id(app.chat_sessions, id) ==> app.after_load_session(id).current_session.id == id,
{
    let before = app.all_sessions();
    let after = app.after_load_session(id).all_sessions();
    if has_id(app.chat_sessions, id) {
        let found = choose|at: int| 0 <= at < app.chat_sessions.len() && (
        #[trigger] app.chat_sessions[at]).id == id;
        assert(before[found].id == id);
        assert forall|k: int| 0 <= k < app.chat_sessions.len() && k != found implies (
        #[trigger] app.chat_sessions[k]).id != id by {
            assert(before[k].id == app.chat_sessions[k].id);
            if k < found {
                assert(before[k].id != before[found].id);
            } else {
                assert(before[found].id != before[k].id);
            }
        }
        assert(is_first_with_id(app.chat_sessions, found, id));
        let at = choose|at: int| is_first_with_id(app.chat_sessions, at, id);
        assert(at == found);
        let last = app.chat_sessions.len() as int;
        assert(after.len() == before.len());
        // The sessions after the swap are those before it, in another order.
        let origin = |k: int|
            if k < at {
                k
            } else if k < last - 1 {
                k + 1
            } else if k == last - 1 {
                last
            } else {
                at
            };
        assert forall|k: int| 0 <= k < after.len() implies (#[trigger] after[k]) == before[origin(
            k,
        )] by {}
        assert forall|i: int, j: int| 0 <= i < j < after.len() implies (#[trigger] after[i]).id
            != (#[trigger] after[j]).id by {
            let a = origin(i);
            let b = origin(j);
            assert(after[i] == before[a]);
            assert(after[j] == before[b]);
            if a < b {
                assert(before[a].id != before[b].id);
            } else {
                assert(before[b].id != before[a].id);
            }
        }
        assert(after[last].id == id);
    } else {
        assert(after == before);
        let found = choose|at: int| 0 <= at < before.len() && (#[trigger] before[at]).id == id;
        assert forall|other: int| 0 <= other < before.len() && other != found implies (
        #[trigger] before[other]).id != id by {
            if other < found {
                assert(before[other].id != before[found].id);
            } else {
                assert(before[found].id != before[other].id);
            }
        }
    }
}

impl LlmTermApp {
    /// The state at the start of a run that found `chat_sessions` on disk
    /// and begins in `session`.
    pub fn with_session(chat_sessions: Vec<ChatSession>, session: ChatSession) -> (app: LlmTermApp)
        ensures
            app@ == AppView::initial(session_views(chat_sessions@), session@),
    {
        LlmTermApp {
            config: Config { model: Model::OpenAiGpt4oMini, max_tokens: 1000 },
            current_input: String::new(),
            current_session: session,
            chat_sessions,
            selected_session_id: None,
            cache: ResponseCache::new(),
            is_loading: false,
            pending_command: PendingCommand::new(),
        }
    }

    /// The state at the start of a run that found `chat_sessions` on disk.
    /// It begins in a session of its own, empty and untitled, under a fresh
    /// identifier.
    pub fn new(chat_sessions: Vec<ChatSession>) -> (app: LlmTermApp)
        ensures
            exists|fresh: SessionView|
                {
                    &&& fresh.title == untitled()
                    &&& fresh.messages.len() == 0
                    &&& app@ == #[trigger] AppView::initial(session_views(chat_sessions@), fresh)
                },
    {
        let session = ChatSession::default();
        let app = LlmTermApp::with_session(chat_sessions, session);
        assert(app@ == AppView::initial(session_views(chat_sessions@), session@));
        app
    }

    /// Where the conversation stands.
    pub fn state(&self) -> (state: ConversationState)
        ensures
            state == self@.state(),
    {
        if self.pending_command.is_pending() {
            ConversationState::AwaitingConfirmation
        } else {
            ConversationState::Idle
        }
    }

    /// Whether what stands in the input line can be sent: it holds more than
    /// white space.
    pub fn can_send(&self) -> (ready: bool)
        ensures
            ready == (trimmed(self@.current_input).len() > 0),
    {
        trim(self.current_input.as_str()).unicode_len() > 0
    }

    /// Whether `session_id` is the session that the user selected last.
    pub fn is_selected(&self, session_id: &str) -> (selected: bool)
        ensures
            selected == (self@.selected_session_id == Some(session_id@)),
    {
        match &self.selected_session_id {
            Some(id) => same_text(id.as_str(), session_id),
            None => false,
        }
    }

    /// Handles `reply`, obtained for the current prompt, at the time `at`.
    pub fn handle_reply_at(&mut self, reply: String, at: Timestamp) -> (action: TurnAction)
        ensures
            final(self)@ == old(self)@.after_reply(reply@, at).0,
            action@ == old(self)@.after_reply(reply@, at).1,
    {
        match parse_reply(reply) {
            ReplyAction::ExecuteLast => match self.pending_command.take() {
                Some(command) => TurnAction::RunCommand { command },
                None => TurnAction::Finished,
            },
            ReplyAction::ProposeCommand { reply_text, command } => {
                self.pending_command.set(command);
                self.current_session.push_assistant_message(reply_text, at);
                TurnAction::Finished
            },
            ReplyAction::Conversational(text) => {
                self.current_session.push_assistant_message(text, at);
                TurnAction::Finished
            },
        }
    }

    /// Takes what the user said at the time `at` and says what the host is
    /// to do next.
    pub fn handle_user_prompt_at(&mut self, prompt: String, at: Timestamp) -> (action: TurnAction)
        ensures
            final(self)@ == old(self)@.after_prompt(prompt@, at).0,
            action@ == old(self)@.after_prompt(prompt@, at).1,
    {
        if self.pending_command.is_pending() && confirms(prompt.as_str()) {
            self.current_session.push_user_message(prompt, at);
            let taken = self.pending_command.take();
            return TurnAction::RunCommand { command: taken.unwrap() };
        }
        match self.cache.get(MODE_TAG, prompt.as_str()) {
            Some(reply) => {
                self.current_session.push_user_message(prompt, at);
                self.handle_reply_at(reply, at)
            },
            None => {
                let history = self.current_session.history();
                self.current_session.push_user_message(prompt.clone(), at);
                TurnAction::QueryModel { prompt, history }
            },
        }
    }

    /// Takes what the user said, now, and says what the host is to do next.
    pub fn handle_user_prompt(&mut self, prompt: String) -> (action: TurnAction)
        ensures
            exists|at: Timestamp|
                {
                    &&& final(self)@ == (#[trigger] old(self)@.after_prompt(prompt@, at)).0
                    &&& action@ == old(self)@.after_prompt(prompt@, at).1
                },
    {
        let at = current_time();
        self.handle_user_prompt_at(prompt, at)
    }

    /// Takes the outcome of asking the language model about `prompt`, at the
    /// time `at`, and says what the host is to do next.
    pub fn handle_model_result_at(
        &mut self,
        prompt: &str,
        outcome: Result<Option<String>, String>,
        at: Timestamp,
    ) -> (action: TurnAction)
        ensures
            final(self)@ == old(self)@.after_model_result(prompt@, outcome_view(outcome), at).0,
            action@ == old(self)@.after_model_result(prompt@, outcome_view(outcome), at).1,
    {
        let reply = reply_text(outcome);
        self.cache.put(MODE_TAG, prompt, reply.clone());
        self.handle_reply_at(reply, at)
    }

    /// Takes the outcome of asking the language model about `prompt`, now,
    /// and says what the host is to do next.
    pub fn handle_model_result(
        &mut self,
        prompt: &str,
        outcome: Result<Option<String>, String>,
    ) -> (action: TurnAction)
        ensures
            exists|at: Timestamp|
                {
                    &&& final(self)@ == (#[trigger] old(self)@.after_model_result(
                        prompt@,
                        outcome_view(outcome),
                        at,
                    )).0
                    &&& action@ == old(self)@.after_model_result(
                        prompt@,
                        outcome_view(outcome),
                        at,
                    ).1
                },
    {
        let at = current_time();
        self.handle_model_result_at(prompt, outcome, at)
    }

    /// Reports, at the time `at`, that `command` was run and gave `output`.
    pub fn record_execution_at(&mut self, command: &str, output: &str, at: Timestamp)
        ensures
            final(self)@ == old(self)@.after_execution(command@, output@, at),
    {
        let report = report_execution(command, output);
        self.current_session.push_assistant_message(report, at);
    }

    /// Reports, now, that `command` was run and gave `output`.
    pub fn record_execution(&mut self, command: &str, output: &str)
        ensures
            exists|at: Timestamp|
                final(self)@ == #[trigger] old(self)@.after_execution(command@, output@, at),
    {
        let at = current_time();
        self.record_execution_at(command, output, at);
    }

    /// Makes `fresh` the active session. The session that was active is
    /// stored if anything was said in it, and dropped if not.
    pub fn start_session(&mut self, fresh: ChatSession)
        ensures
            final(self)@ == old(self)@.after_new_chat(fresh@),
    {
        let mut previous = fresh;
        std::mem::swap(&mut self.current_session, &mut previous);
        if previous.messages.len() > 0 {
            let ghost stored = self.chat_sessions@;
            self.chat_sessions.push(previous);
            assert(session_views(self.chat_sessions@) =~= session_views(stored).push(previous@));
        }
        self.selected_session_id = None;
        self.current_input = String::new();
    }

    /// Starts a new session, empty and untitled, under a fresh identifier.
    pub fn new_chat(&mut self)
        ensures
            exists|fresh: SessionView|
                {
                    &&& fresh.title == untitled()
                    &&& fresh.messages.len() == 0
                    &&& final(self)@ == #[trigger] old(self)@.after_new_chat(fresh)
                },
    {
        let fresh = ChatSession::default();
        self.start_session(fresh);
        assert(final(self)@ == old(self)@.after_new_chat(fresh@));
    }

    /// Where the first stored session with the identifier `session_id` stands.
    fn stored_position(&self, session_id: &str) -> (found: Option<usize>)
        ensures
            match found {
                Some(at) => is_first_with_id(self@.chat_sessions, at as int, session_id@),
                None => !has_id(self@.chat_sessions, session_id@),
            },
    {
        let mut at: usize = 0;
        while at < self.chat_sessions.len()
            invariant
                at <= self.chat_sessions@.len(),
                forall|earlier: int|
                    0 <= earlier < at ==> (#[trigger] self@.chat_sessions[earlier]).id
                        != session_id@,
            decreases self.chat_sessions@.len() - at,
        {
            if same_text(self.chat_sessions[at].id.as_str(), session_id) {
                assert(self@.chat_sessions[at as int].id == session_id@);
                return Some(at);
            }
            at += 1;
        }
        None
    }

    /// Makes the stored session with the identifier `session_id` the active
    /// one, and stores the one that was active in its stead, at the end.
    pub fn load_session(&mut self, session_id: &str)
        ensures
            final(self)@ == old(self)@.after_load_session(session_id@),
    {
        match self.stored_position(session_id) {
            Some(at) => {
                proof {
                    let chosen = choose|c: int|
                        is_first_with_id(old(self)@.chat_sessions, c, session_id@);
                    assert(is_first_with_id(old(self)@.chat_sessions, at as int, session_id@));
                    assert(chosen == at);
                }
                let ghost stored = self.chat_sessions@;
                let mut session = self.chat_sessions.remove(at);
                assert(session_views(self.chat_sessions@) =~= session_views(stored).remove(
                    at as int,
                ));
                let ghost rest = self.chat_sessions@;
                std::mem::swap(&mut self.current_session, &mut session);
                self.chat_sessions.push(session);
                assert(session_views(self.chat_sessions@) =~= session_views(rest).push(session@));
                self.selected_session_id = Some(self.current_session.id.clone());
            },
            None => {},
        }
    }
}

} // verus!
