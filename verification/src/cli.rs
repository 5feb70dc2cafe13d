//! Direct command generation: one prompt on the command line, one command
//! back, run only if the user says so.
//!
//! The run is a small state machine. Each step says what the host is to do
//! next; the host does it and hands back what the user typed or what the
//! language model answered.

use crate::cache::ResponseCache;
use crate::engine::{outcome_view, reply_for, reply_text};
use crate::protocol::{normalize, normalized};
use crate::text::same_text;
use vstd::prelude::*;

verus! {

/// The mode under which generated commands are remembered.
pub const COMMAND_MODE: &'static str = "command";

/// Whether `answer`, once normalized, is the one word that consents: `y`.
pub open spec fn is_consent(answer: Seq<char>) -> bool {
    normalized(answer) == "y"@
}

/// Whether what the user typed consents, whatever its case and the white
/// space around it.
pub fn consents(answer: &str) -> (yes: bool)
    ensures
        yes == is_consent(answer@),
{
    let token = normalize(answer);
    same_text(token.as_str(), "y")
}

/// Where a run stands.
#[derive(Clone, Debug, PartialEq, Eq)]
pub enum Stage {
    /// The user is asked whether to run the command found in the cache.
    CachedOffered { command: String },
    /// The user is asked whether to forget the cached command.
    InvalidationOffered,
    /// The language model is asked for a command.
    ModelAsked,
    /// The user is asked whether to run the command that the model gave.
    FreshOffered { command: String },
    /// Nothing is left to do.
    Finished,
}

/// The mathematical value of a `Stage`.
pub enum StageView {
    CachedOffered { command: Seq<char> },
    InvalidationOffered,
    ModelAsked,
    FreshOffered { command: Seq<char> },
    Finished,
}

impl View for Stage {
    type V = StageView;

    open spec fn view(&self) -> StageView {
        match self {
            Stage::CachedOffered { command } => StageView::CachedOffered { command: command@ },
            Stage::InvalidationOffered => StageView::InvalidationOffered,
            Stage::ModelAsked => StageView::ModelAsked,
            Stage::FreshOffered { command } => StageView::FreshOffered { command: command@ },
            Stage::Finished => StageView::Finished,
        }
    }
}

/// What the host is to do after a step of a run.
#[derive(Clone, Debug, PartialEq, Eq)]
pub enum Request {
    /// Show `command` as one found in the cache, ask whether to run it, and
    /// hand the answer to `answer`.
    OfferCached { command: String },
    /// Ask whether to forget the cached command, and hand the answer to
    /// `answer`.
    OfferInvalidation,
    /// Write the cache to disk where `store` says so, ask the language model
    /// for a command for `prompt`, and hand the outcome to `model_result`.
    AskModel { prompt: String, store: bool },
    /// Show `command`, ask whether to run it, and hand the answer to `answer`.
    OfferFresh { command: String },
    /// Run `command`, then write the cache to disk where `store` says so.
    Run { command: String, store: bool },
    /// Tell the user that nothing is run, then write the cache to disk where
    /// `store` says so.
    Cancel { store: bool },
    /// Tell the user that no command could be generated.
    ReportNoCommand,
    /// Tell the user that asking the language model failed, with `message`.
    ReportFailure { message: String },
    /// Nothing: the step came at a stage that does not await it.
    Nothing,
}

/// The mathematical value of a `Request`.
pub enum RequestView {
    OfferCached { command: Seq<char> },
    OfferInvalidation,
    AskModel { prompt: Seq<char>, store: bool },
    OfferFresh { command: Seq<char> },
    Run { command: Seq<char>, store: bool },
    Cancel { store: bool },
    ReportNoCommand,
    ReportFailure { message: Seq<char> },
    Nothing,
}

impl View for Request {
    type V = RequestView;

    open spec fn view(&self) -> RequestView {
        match self {
            Request::OfferCached { command } => RequestView::OfferCached { command: command@ },
            Request::OfferInvalidation => RequestView::OfferInvalidation,
            Request::AskModel { prompt, store } => RequestView::AskModel {
                prompt: prompt@,
                store: *store,
            },
            Request::OfferFresh { command } => RequestView::OfferFresh { command: command@ },
            Request::Run { command, store } => RequestView::Run {
                command: command@,
                store: *store,
            },
            Request::Cancel { store } => RequestView::Cancel { store: *store },
            Request::ReportNoCommand => RequestView::ReportNoCommand,
            Request::ReportFailure { message } => RequestView::ReportFailure { message: message@ },
            Request::Nothing => RequestView::Nothing,
        }
    }
}

/// A run of direct command generation: the prompt, the cache of commands,
/// and where the run stands.
#[derive(Debug)]
pub struct CommandRun {
    pub prompt: String,
    pub cache: ResponseCache,
    pub stage: Stage,
}

/// The mathematical value of a `CommandRun`.
pub struct RunView {
    pub prompt: Seq<char>,
    pub cache: Map<(Seq<char>, Seq<char>), Seq<char>>,
    pub stage: StageView,
}

impl View for CommandRun {
    type V = RunView;

    open spec fn view(&self) -> RunView {
        RunView { prompt: self.prompt@, cache: self.cache@, stage: self.stage@ }
    }
}

impl RunView {
    /// The key under which the command for the prompt is remembered.
    pub open spec fn key(self) -> (Seq<char>, Seq<char>) {
        (COMMAND_MODE@, self.prompt)
    }

    /// How a run for `prompt` begins: with the command that `cache` holds for
    /// it, unless the cache is not to be used, and else with the question to
    /// the language model.
    pub open spec fn started(
        prompt: Seq<char>,
        cache: Map<(Seq<char>, Seq<char>), Seq<char>>,
        disable_cache: bool,
    ) -> (RunView, RequestView) {
        if !disable_cache && cache.contains_key((COMMAND_MODE@, prompt)) {
            let command = cache[(COMMAND_MODE@, prompt)];
            (
                RunView { prompt, cache, stage: StageView::CachedOffered { command } },
                RequestView::OfferCached { command },
            )
        } else {
            (
                RunView { prompt, cache, stage: StageView::ModelAsked },
                RequestView::AskModel { prompt, store: false },
            )
        }
    }

    /// The run, and what the host is to do, once the user has typed `line`.
    ///
    /// Consent to a cached command runs it. Without it the user is asked
    /// whether to forget that command: consent forgets it and asks the
    /// language model, anything else ends the run. A command that the model
    /// gave is remembered whatever the user answers, and run on consent.
    pub open spec fn after_answer(self, line: Seq<char>) -> (RunView, RequestView) {
        match self.stage {
            StageView::CachedOffered { command } => if is_consent(line) {
                (
                    RunView { stage: StageView::Finished, ..self },
                    RequestView::Run { command, store: false },
                )
            } else {
                (
                    RunView { stage: StageView::InvalidationOffered, ..self },
                    RequestView::OfferInvalidation,
                )
            },
            StageView::InvalidationOffered => if is_consent(line) {
                (
                    RunView {
                        cache: self.cache.remove(self.key()),
                        stage: StageView::ModelAsked,
                        ..self
                    },
                    RequestView::AskModel { prompt: self.prompt, store: true },
                )
            } else {
                (
                    RunView { stage: StageView::Finished, ..self },
                    RequestView::Cancel { store: false },
                )
            },
            StageView::FreshOffered { command } => (
                RunView {
                    cache: self.cache.insert(self.key(), command),
                    stage: StageView::Finished,
                    ..self
                },
                if is_consent(line) {
                    RequestView::Run { command, store: true }
                } else {
                    RequestView::Cancel { store: true }
                },
            ),
            _ => (self, RequestView::Nothing),
        }
    }

    /// The run, and what the host is to do, once the language model has
    /// answered with `outcome`: a command is offered, no command and a
    /// failure are reported and end the run.
    pub open spec fn after_model_result(
        self,
        outcome: Result<Option<Seq<char>>, Seq<char>>,
    ) -> (RunView, RequestView) {
        match self.stage {
            StageView::ModelAsked => match outcome {
                Ok(Some(command)) => (
                    RunView { stage: StageView::FreshOffered { command }, ..self },
                    RequestView::OfferFresh { command },
                ),
                Ok(None) => (
                    RunView { stage: StageView::Finished, ..self },
                    RequestView::ReportNoCommand,
                ),
                Err(_) => (
                    RunView { stage: StageView::Finished, ..self },
                    RequestView::ReportFailure { message: reply_for(outcome) },
                ),
            },
            _ => (self, RequestView::Nothing),
        }
    }
}

/// A command that the language model gave is offered from the cache the next
/// time the same prompt is run, whatever the user answered to the offer, and
/// the language model is not asked again.
pub proof fn lemma_generated_command_is_offered_next_time(run: RunView, line: Seq<char>)
    requires
        run.stage is FreshOffered,
    ensures
        RunView::started(run.prompt, run.after_answer(line).0.cache, false).1 == (
        RequestView::OfferCached { command: run.stage->FreshOffered_command }),
{
}

impl CommandRun {
    /// Begins a run for `prompt` with the commands remembered in `cache`.
    /// With `disable_cache` the language model is asked whatever the cache
    /// holds.
    pub fn start(prompt: String, cache: ResponseCache, disable_cache: bool) -> (begun: (
        CommandRun,
        Request,
    ))
        ensures
            begun.0@ == RunView::started(prompt@, cache@, disable_cache).0,
            begun.1@ == RunView::started(prompt@, cache@, disable_cache).1,
    {
        let cached = if disable_cache {
            None
        } else {
            cache.get(COMMAND_MODE, prompt.as_str())
        };
        match cached {
            Some(command) => {
                let request = Request::OfferCached { command: command.clone() };
                (CommandRun { prompt, cache, stage: Stage::CachedOffered { command } }, request)
            },
            None => {
                let request = Request::AskModel { prompt: prompt.clone(), store: false };
                (CommandRun { prompt, cache, stage: Stage::ModelAsked }, request)
            },
        }
    }

    /// Takes what the user typed in answer to the last question and says
    /// what the host is to do next.
    pub fn answer(&mut self, line: &str) -> (request: Request)
        ensures
            final(self)@ == old(self)@.after_answer(line@).0,
            request@ == old(self)@.after_answer(line@).1,
    {
        let mut stage = Stage::Finished;
        std::mem::swap(&mut stage, &mut self.stage);
        match stage {
            Stage::CachedOffered { command } => {
                if consents(line) {
                    Request::Run { command, store: false }
                } else {
                    self.stage = Stage::InvalidationOffered;
                    Request::OfferInvalidation
                }
            },
            Stage::InvalidationOffered => {
                if consents(line) {
                    let _ = self.cache.remove(COMMAND_MODE, self.prompt.as_str());
                    self.stage = Stage::ModelAsked;
                    Request::AskModel { prompt: self.prompt.clone(), store: true }
                } else {
                    Request::Cancel { store: false }
                }
            },
            Stage::FreshOffered { command } => {
                self.cache.put(COMMAND_MODE, self.prompt.as_str(), command.clone());
                if consents(line) {
                    Request::Run { command, store: true }
                } else {
                    Request::Cancel { store: true }
                }
            },
            Stage::ModelAsked => {
                self.stage = Stage::ModelAsked;
                Request::Nothing
            },
            Stage::Finished => Request::Nothing,
        }
    }

    /// Takes the outcome of asking the language model and says what the host
    /// is to do next.
    pub fn model_result(&mut self, outcome: Result<Option<String>, String>) -> (request: Request)
        ensures
            final(self)@ == old(self)@.after_model_result(outcome_view(outcome)).0,
            request@ == old(self)@.after_model_result(outcome_view(outcome)).1,
    {
        match self.stage {
            Stage::ModelAsked => {},
            _ => {
                return Request::Nothing;
            },
        }
        match outcome {
            Ok(Some(command)) => {
                self.stage = Stage::FreshOffered { command: command.clone() };
                Request::OfferFresh { command }
            },
            Ok(None) => {
                self.stage = Stage::Finished;
                Request::ReportNoCommand
            },
            Err(failure) => {
                self.stage = Stage::Finished;
                Request::ReportFailure { message: reply_text(Err(failure)) }
            },
        }
    }
}

} // verus!
