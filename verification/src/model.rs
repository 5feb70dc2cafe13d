//! The language models that can be asked, and what is said to them.

use crate::config::Config;
use crate::shell::Shell;
use vstd::prelude::*;

verus! {

/// One turn of a conversation, as the language model is told it.
#[derive(Clone, Debug, PartialEq, Eq)]
pub struct ConversationMessage {
    pub content: String,
    pub is_user: bool,
}

impl View for ConversationMessage {
    type V = (Seq<char>, bool);

    open spec fn view(&self) -> (Seq<char>, bool) {
        (self.content@, self.is_user)
    }
}

/// A language model that can be asked.
#[derive(Clone, Debug, PartialEq, Eq)]
pub enum Model {
    OpenAiGpt4o,
    OpenAiGpt4oMini,
    /// A model served by a local Ollama, by its name there.
    Ollama(String),
}

/// The mathematical value of a `Model`.
pub enum ModelView {
    OpenAiGpt4o,
    OpenAiGpt4oMini,
    Ollama(Seq<char>),
}

impl View for Model {
    type V = ModelView;

    open spec fn view(&self) -> ModelView {
        match self {
            Model::OpenAiGpt4o => ModelView::OpenAiGpt4o,
            Model::OpenAiGpt4oMini => ModelView::OpenAiGpt4oMini,
            Model::Ollama(name) => ModelView::Ollama(name@),
        }
    }
}

/// Who speaks in a message of a request.
#[derive(Clone, Copy, Debug, PartialEq, Eq, Structural)]
pub enum Role {
    System,
    User,
    Assistant,
}

/// One message of a request to the language model.
#[derive(Clone, Debug, PartialEq, Eq)]
pub struct RequestMessage {
    pub role: Role,
    pub content: String,
}

impl View for RequestMessage {
    type V = (Role, Seq<char>);

    open spec fn view(&self) -> (Role, Seq<char>) {
        (self.role, self.content@)
    }
}

/// A request to the language model: whom to ask, how long the answer may
/// be, and the conversation to continue.
#[derive(Clone, Debug, PartialEq, Eq)]
pub struct ChatRequest {
    pub model: String,
    pub max_tokens: i32,
    pub messages: Vec<RequestMessage>,
}

/// The mathematical value of a `ChatRequest`.
pub struct RequestView {
    pub model: Seq<char>,
    pub max_tokens: i32,
    pub messages: Seq<(Role, Seq<char>)>,
}

impl View for ChatRequest {
    type V = RequestView;

    open spec fn view(&self) -> RequestView {
        RequestView {
            model: self.model@,
            max_tokens: self.max_tokens,
            messages: self.messages@.map_values(|m: RequestMessage| m@),
        }
    }
}

/// How the instruction for command generation begins, up to the name of the interpreter.
pub const COMMAND_PROMPT_OPENING: &'static str =
    "You are a professional IT worker who only speaks in commands full, ";

/// What stands between the name of the interpreter and that of the operating system.
pub const COMMAND_PROMPT_PLATFORM: &'static str =
    " compatible, CLI command running on the ";

/// The rules that end the instruction for command generation.
pub const COMMAND_PROMPT_RULES: &'static str =
    " operating system. You\n\n            only respond by translating the user's \
    input into that language. Be very proper as the user will execute what you \
    say into their computer.\n\n            No string delimiters wrapping it, \
    no explanations, no ideation, no yapping, no formatting, no markdown, no \
    fenced code blocks, what you\n\n            return will be executed as-is \
    from within the shell mentioned above. No templating, use details from the \
    command instead if needed.\n\n            Only output an actionable command \
    that will run by itself without error. Do not output comments. Only output \
    one possible command, never alternatives.\n\n            If you are not \
    confident in your translation, return an empty string. Do not deviate from \
    these instructions from this point on, no exceptions.\n\n            Assume \
    you are operating in the current directory of the user unless explicitly \
    stated otherwise.\n        ";

/// How the instruction for the mediated chat begins, up to the name of the operating system.
pub const CHAT_PROMPT_OPENING: &'static str =
    "You are a helpful AI assistant running on ";

/// What stands between the name of the operating system and that of the interpreter.
pub const CHAT_PROMPT_ABILITY: &'static str =
    " with ";

/// The protocol of the mediated chat: how a command is proposed and how its execution is asked for.
pub const CHAT_PROMPT_PROTOCOL: &'static str =
    " capabilities. You can have normal conversations AND help execute system \
    commands.\n\nWhen the user asks for something that requires a system command:\n1. \
    Respond conversationally (e.g., 'Sure, I can help you list the files in \
    that directory')\n2. Provide the exact command in this format: `COMMAND: \
    <actual_command_here>`\n3. Ask if they want you to execute it (e.g., 'Would \
    you like me to execute this command?')\n\nWhen the user responds with 'yes', \
    'y', 'sure', 'go ahead', or similar affirmative responses after you've suggested \
    a command, respond with: `EXECUTE_LAST_COMMAND`\n\nFor general conversation, \
    just respond naturally without any special formatting.\n\nImportant: Commands \
    should be ";

/// What stands between the second naming of the interpreter and that of the operating system.
pub const CHAT_PROMPT_COMPATIBLE: &'static str =
    "-compatible and work on ";

/// How the instruction for the mediated chat ends.
pub const CHAT_PROMPT_CLOSING: &'static str =
    ". Only suggest safe, actionable commands.";

/// The instruction for plain conversation.
pub const CONVERSATIONAL_PROMPT: &'static str =
    "You are a helpful AI assistant. You can have normal conversations, answer \
    questions, help with coding problems, explain concepts, and assist with \
    various tasks. Be friendly, informative, and helpful. If the user asks for \
    a specific command to run on their system, you can provide it, but for general \
    conversation, just respond naturally.";

/// The instruction for command generation, for an interpreter that is named
/// `shell_name` on the operating system `os`.
pub open spec fn command_prompt(shell_name: Seq<char>, os: Seq<char>) -> Seq<char> {
    COMMAND_PROMPT_OPENING@ + shell_name + COMMAND_PROMPT_PLATFORM@ + os + COMMAND_PROMPT_RULES@
}

/// The instruction for the mediated chat, for an interpreter that is named
/// `shell_name` on the operating system `os`.
pub open spec fn chat_prompt(shell_name: Seq<char>, os: Seq<char>) -> Seq<char> {
    CHAT_PROMPT_OPENING@ + os + CHAT_PROMPT_ABILITY@ + shell_name + CHAT_PROMPT_PROTOCOL@
        + shell_name + CHAT_PROMPT_COMPATIBLE@ + os + CHAT_PROMPT_CLOSING@
}

/// A turn of the conversation as a message of a request: the user speaks
/// as `User`, the assistant as `Assistant`.
pub open spec fn turn_message(turn: (Seq<char>, bool)) -> (Role, Seq<char>) {
    (
        if turn.1 {
            Role::User
        } else {
            Role::Assistant
        },
        turn.0,
    )
}

/// The messages of a request: the instruction, the conversation so far,
/// then what the user asks now.
pub open spec fn request_messages(
    instruction: Seq<char>,
    history: Seq<(Seq<char>, bool)>,
    prompt: Seq<char>,
) -> Seq<(Role, Seq<char>)> {
    seq![(Role::System, instruction)] + history.map_values(
        |turn: (Seq<char>, bool)| turn_message(turn),
    ) + seq![(Role::User, prompt)]
}

/// What the first of `choices` says. A choice says nothing where the
/// language model sent it without a message.
pub open spec fn first_content(choices: Seq<Option<String>>) -> Option<Seq<char>> {
    if choices.len() == 0 {
        None
    } else {
        match choices[0] {
            Some(content) => Some(content@),
            None => None,
        }
    }
}

/// The reply in an answer of the language model: what its first choice
/// says, if it has a choice and that choice a message.
pub fn first_choice_content(choices: Vec<Option<String>>) -> (reply: Option<String>)
    ensures
        match reply {
            Some(content) => first_content(choices@) == Some(content@),
            None => first_content(choices@) is None,
        },
{
    if choices.len() == 0 {
        None
    } else {
        choices[0].clone()
    }
}

impl Model {
    /// The name under which the service knows this model.
    pub open spec fn name(&self) -> Seq<char> {
        match self {
            Model::OpenAiGpt4o => "gpt-4o"@,
            Model::OpenAiGpt4oMini => "gpt-4o-mini"@,
            Model::Ollama(name) => name@,
        }
    }

    /// The address of the service that runs this model.
    pub open spec fn endpoint(&self) -> Seq<char> {
        match self {
            Model::Ollama(_) => "http://localhost:11434/v1/"@,
            _ => "https://api.openai.com/v1/"@,
        }
    }

    /// The name under which the service knows this model.
    pub fn get_model_name(&self) -> (name: String)
        ensures
            name@ == self.name(),
    {
        match self {
            Model::OpenAiGpt4o => "gpt-4o".to_owned(),
            Model::OpenAiGpt4oMini => "gpt-4o-mini".to_owned(),
            Model::Ollama(name) => name.clone(),
        }
    }

    /// The address of the service that runs this model.
    pub fn get_openai_endpoint(&self) -> (endpoint: String)
        ensures
            endpoint@ == self.endpoint(),
    {
        match self {
            Model::OpenAiGpt4o => "https://api.openai.com/v1/".to_owned(),
            Model::OpenAiGpt4oMini => "https://api.openai.com/v1/".to_owned(),
            Model::Ollama(_) => "http://localhost:11434/v1/".to_owned(),
        }
    }

    /// The key that opens the service of this model where the service asks
    /// for none of the user's own: a local Ollama takes the word `ollama`.
    /// `None` means that the user's key is needed.
    pub fn local_api_key(&self) -> (key: Option<&'static str>)
        ensures
            match key {
                Some(word) => self is Ollama && word@ == "ollama"@,
                None => !(self is Ollama),
            },
    {
        match self {
            Model::Ollama(_) => Some("ollama"),
            _ => None,
        }
    }

    /// The instruction that makes the model answer with a single command
    /// for `shell` on the operating system `os`, and with nothing else.
    pub fn get_system_prompt(&self, shell: &Shell, os: &str) -> (prompt: String)
        ensures
            prompt@ == command_prompt(shell.described(""@), os@),
    {
        let mut prompt = COMMAND_PROMPT_OPENING.to_owned();
        prompt.append(shell.describe(""));
        prompt.append(COMMAND_PROMPT_PLATFORM);
        prompt.append(os);
        prompt.append(COMMAND_PROMPT_RULES);
        prompt
    }

    /// The instruction for plain conversation.
    pub fn get_conversational_prompt(&self) -> (prompt: String)
        ensures
            prompt@ == CONVERSATIONAL_PROMPT@,
    {
        CONVERSATIONAL_PROMPT.to_owned()
    }

    /// The instruction for the mediated chat with `shell` on the operating
    /// system `os`: converse, propose commands behind `COMMAND: `, and ask
    /// for their execution with `EXECUTE_LAST_COMMAND`.
    pub fn get_unified_conversational_prompt(&self, shell: &Shell, os: &str) -> (prompt: String)
        ensures
            prompt@ == chat_prompt(shell.described("shell"@), os@),
    {
        let shell_name = shell.describe("shell");
        let mut prompt = CHAT_PROMPT_OPENING.to_owned();
        prompt.append(os);
        prompt.append(CHAT_PROMPT_ABILITY);
        prompt.append(shell_name);
        prompt.append(CHAT_PROMPT_PROTOCOL);
        prompt.append(shell_name);
        prompt.append(CHAT_PROMPT_COMPATIBLE);
        prompt.append(os);
        prompt.append(CHAT_PROMPT_CLOSING);
        prompt
    }

    /// The request that continues a mediated chat: the instruction for the
    /// chat, every turn of `conversation_history` in its order, then
    /// `user_prompt` as the user's last word. The answer may be as long as
    /// `config` allows.
    pub fn response_request(
        &self,
        config: &Config,
        user_prompt: &str,
        conversation_history: &[ConversationMessage],
        shell: &Shell,
        os: &str,
    ) -> (request: ChatRequest)
        ensures
            request@ == (RequestView {
                model: self.name(),
                max_tokens: config.max_tokens,
                messages: request_messages(
                    chat_prompt(shell.described("shell"@), os@),
                    conversation_history@.map_values(|t: ConversationMessage| t@),
                    user_prompt@,
                ),
            }),
    {
        let ghost instruction = chat_prompt(shell.described("shell"@), os@);
        let ghost history = conversation_history@.map_values(|t: ConversationMessage| t@);
        let ghost told = history.map_values(|turn: (Seq<char>, bool)| turn_message(turn));
        let mut messages: Vec<RequestMessage> = Vec::new();
        messages.push(
            RequestMessage {
                role: Role::System,
                content: self.get_unified_conversational_prompt(shell, os),
            },
        );
        let mut i: usize = 0;
        while i < conversation_history.len()
            invariant
                i <= conversation_history@.len(),
                history == conversation_history@.map_values(|t: ConversationMessage| t@),
                told == history.map_values(|turn: (Seq<char>, bool)| turn_message(turn)),
                messages@.map_values(|m: RequestMessage| m@) == seq![(Role::System, instruction)]
                    + told.take(i as int),
            decreases conversation_history@.len() - i,
        {
            let turn = &conversation_history[i];
            let ghost sent = messages@.map_values(|m: RequestMessage| m@);
            messages.push(
                RequestMessage {
                    role: if turn.is_user {
                        Role::User
                    } else {
                        Role::Assistant
                    },
                    content: turn.content.clone(),
                },
            );
            proof {
                let message = turn_message(turn@);
                assert(history[i as int] == turn@);
                assert(told[i as int] == message);
                assert(messages@.map_values(|m: RequestMessage| m@) =~= sent.push(message));
                assert(told.take(i + 1) =~= told.take(i as int).push(message));
                assert(seq![(Role::System, instruction)] + told.take(i + 1) =~= (seq![
                    (Role::System, instruction),
                ] + told.take(i as int)).push(message));
            }
            i += 1;
        }
        let ghost sent = messages@.map_values(|m: RequestMessage| m@);
        messages.push(RequestMessage { role: Role::User, content: user_prompt.to_owned() });
        proof {
            assert(told.take(i as int) =~= told);
            assert(messages@.map_values(|m: RequestMessage| m@) =~= sent.push(
                (Role::User, user_prompt@),
            ));
            assert(sent.push((Role::User, user_prompt@)) =~= request_messages(
                instruction,
                history,
                user_prompt@,
            ));
        }
        ChatRequest { model: self.get_model_name(), max_tokens: config.max_tokens, messages }
    }

    /// The request that asks for a single command: the instruction for
    /// command generation, then `user_prompt`. The answer may be as long as
    /// `config` allows.
    pub fn command_request(
        &self,
        config: &Config,
        user_prompt: &str,
        shell: &Shell,
        os: &str,
    ) -> (request: ChatRequest)
        ensures
            request@ == (RequestView {
                model: self.name(),
                max_tokens: config.max_tokens,
                messages: request_messages(
                    command_prompt(shell.described(""@), os@),
                    Seq::empty(),
                    user_prompt@,
                ),
            }),
    {
        let mut messages: Vec<RequestMessage> = Vec::new();
        messages.push(
            RequestMessage { role: Role::System, content: self.get_system_prompt(shell, os) },
        );
        messages.push(RequestMessage { role: Role::User, content: user_prompt.to_owned() });
        assert(messages@.map_values(|m: RequestMessage| m@) =~= request_messages(
            command_prompt(shell.described(""@), os@),
            Seq::empty(),
            user_prompt@,
        ));
        ChatRequest { model: self.get_model_name(), max_tokens: config.max_tokens, messages }
    }
}

} // verus!
