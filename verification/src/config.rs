//! What the user has configured: the model to ask and how long it may
//! answer, and how both are read from what the user types.

use crate::model::{Model, ModelView};
use crate::text::{same_text, trim, trimmed};
use vstd::prelude::*;

verus! {

/// The configuration of a run. It is read once and then stays as it is.
#[derive(Clone, Debug, PartialEq, Eq)]
pub struct Config {
    pub model: Model,
    pub max_tokens: i32,
}

/// The mathematical value of a `Config`.
pub struct ConfigView {
    pub model: ModelView,
    pub max_tokens: i32,
}

impl View for Config {
    type V = ConfigView;

    open spec fn view(&self) -> ConfigView {
        ConfigView { model: self.model@, max_tokens: self.max_tokens }
    }
}

/// The most tokens that an answer may be allowed.
pub const MAX_TOKENS_LIMIT: i32 = 4096;

/// The model that a local Ollama is asked for.
pub const OLLAMA_MODEL: &'static str = "llama3.1";

/// The model that the answer `choice` selects: `1` a small GPT-4o, `2`
/// GPT-4o, `3` a local Ollama. Any other answer selects none.
pub open spec fn chosen_model(choice: Seq<char>) -> Option<ModelView> {
    if choice == "1"@ {
        Some(ModelView::OpenAiGpt4oMini)
    } else if choice == "2"@ {
        Some(ModelView::OpenAiGpt4o)
    } else if choice == "3"@ {
        Some(ModelView::Ollama(OLLAMA_MODEL@))
    } else {
        None
    }
}

/// Reads the user's choice of a model from a line of input, whatever the
/// white space around it.
pub fn parse_model_choice(input: &str) -> (model: Option<Model>)
    ensures
        match model {
            Some(m) => chosen_model(trimmed(input@)) == Some(m@),
            None => chosen_model(trimmed(input@)) is None,
        },
{
    let choice = trim(input);
    if same_text(choice, "1") {
        Some(Model::OpenAiGpt4oMini)
    } else if same_text(choice, "2") {
        Some(Model::OpenAiGpt4o)
    } else if same_text(choice, "3") {
        Some(Model::Ollama(OLLAMA_MODEL.to_owned()))
    } else {
        None
    }
}

// What `str::parse::<i32>` returns for the text `s`, an error read as `None`.
pub uninterp spec fn parsed_i32(s: Seq<char>) -> Option<i32>;

/// `str::parse::<i32>`: the number that `s` writes in decimal digits behind
/// an optional sign, or `None` where `s` is no such number or the number
/// does not fit. The grammar is not restated here; the result is a function
/// of the characters of `s` alone, named `parsed_i32`.
#[verifier::external_body]
pub(crate) fn parse_i32(s: &str) -> (number: Option<i32>)
    ensures
        number == parsed_i32(s@),
{
    s.parse::<i32>().ok()
}

/// The allowance that a parsed number stands for: the number itself where
/// it is at least 1 and at most 4096.
pub open spec fn accepted_tokens(number: Option<i32>) -> Option<i32> {
    match number {
        Some(n) if 0 < n <= MAX_TOKENS_LIMIT => Some(n),
        _ => None,
    }
}

/// Accepts a parsed number as an allowance of tokens where it is at least
/// 1 and at most 4096.
pub fn accept_max_tokens(number: Option<i32>) -> (tokens: Option<i32>)
    ensures
        tokens == accepted_tokens(number),
{
    match number {
        Some(n) => if n > 0 && n <= MAX_TOKENS_LIMIT {
            Some(n)
        } else {
            None
        },
        None => None,
    }
}

/// Reads the allowance of tokens from a line of input, whatever the white
/// space around it: a number from 1 to 4096.
pub fn parse_max_tokens(input: &str) -> (tokens: Option<i32>)
    ensures
        tokens == accepted_tokens(parsed_i32(trimmed(input@))),
{
    accept_max_tokens(parse_i32(trim(input)))
}

} // verus!
