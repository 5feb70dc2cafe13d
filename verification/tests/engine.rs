use llm_term::config::Config;
use llm_term::engine::{
    reply_text, ConversationState, LlmTermApp, TurnAction, FALLBACK_REPLY, MODE_TAG,
};
use llm_term::model::{ConversationMessage, Model};
use llm_term::session::{ChatMessage, ChatSession, Timestamp};

fn at(secs: i64) -> Timestamp {
    Timestamp { secs, nanos: 0 }
}

fn app() -> LlmTermApp {
    LlmTermApp::with_session(Vec::new(), ChatSession::new("current".to_string(), at(0)))
}

fn user(content: &str, secs: i64) -> ChatMessage {
    ChatMessage::from_user(content.to_string(), at(secs))
}

fn assistant(content: &str, secs: i64) -> ChatMessage {
    ChatMessage::from_assistant(content.to_string(), at(secs))
}

fn turn(content: &str, is_user: bool) -> ConversationMessage {
    ConversationMessage { content: content.to_string(), is_user }
}

fn query(prompt: &str, history: Vec<ConversationMessage>) -> TurnAction {
    TurnAction::QueryModel { prompt: prompt.to_string(), history }
}

fn run(command: &str) -> TurnAction {
    TurnAction::RunCommand { command: command.to_string() }
}

fn session_with(id: &str, said: &str) -> ChatSession {
    let mut session = ChatSession::new(id.to_string(), at(0));
    session.push_user_message(said.to_string(), at(1));
    session
}

fn count_with_id(app: &LlmTermApp, id: &str) -> usize {
    let stored = app.chat_sessions.iter().filter(|s| s.id == id).count();
    stored + if app.current_session.id == id { 1 } else { 0 }
}

#[test]
fn a_run_starts_idle_in_an_empty_session() {
    let stored = vec![session_with("a", "hello")];
    let app = LlmTermApp::new(stored.clone());
    assert_eq!(app.config, Config { model: Model::OpenAiGpt4oMini, max_tokens: 1000 });
    assert_eq!(app.current_input, "");
    assert_eq!(app.current_session.title, "New Chat");
    assert!(app.current_session.messages.is_empty());
    assert_eq!(app.chat_sessions, stored);
    assert_eq!(app.selected_session_id, None);
    assert!(app.cache.entries().is_empty());
    assert!(!app.is_loading);
    assert!(!app.pending_command.is_pending());
}

#[test]
fn a_first_prompt_is_appended_and_sent_to_the_model() {
    let mut app = app();
    let action = app.handle_user_prompt_at("list files in this folder".to_string(), at(1));
    assert_eq!(
        action,
        query("list files in this folder", Vec::new())
    );
    assert_eq!(app.current_session.messages, vec![user("list files in this folder", 1)]);
    assert_eq!(app.current_session.title, "list files in this folder");
    assert!(!app.pending_command.is_pending());
}

#[test]
fn a_proposal_is_shown_and_becomes_pending_then_yes_runs_it() {
    let mut app = app();
    let prompt = "list files in this folder";
    let reply = "Sure, here: `COMMAND: ls -la` Want me to run it?";
    assert_eq!(app.handle_user_prompt_at(prompt.to_string(), at(1)), query(prompt, Vec::new()));
    let action = app.handle_model_result_at(prompt, Ok(Some(reply.to_string())), at(2));
    assert_eq!(action, TurnAction::Finished);
    assert_eq!(app.current_session.messages, vec![user(prompt, 1), assistant(reply, 2)]);
    assert_eq!(app.pending_command.peek(), Some(&"ls -la".to_string()));

    let action = app.handle_user_prompt_at("yes".to_string(), at(3));
    assert_eq!(action, run("ls -la"));
    assert!(!app.pending_command.is_pending());

    let listing = "total 8\ndrwxr-xr-x 2 me me 4096 Jan  1 00:00 .\n";
    app.record_execution_at("ls -la", listing, at(4));
    assert_eq!(
        app.current_session.messages,
        vec![
            user(prompt, 1),
            assistant(reply, 2),
            user("yes", 3),
            assistant(
                "Executing: ls -la\n\nOutput:\ntotal 8\ndrwxr-xr-x 2 me me 4096 Jan  1 00:00 .\n",
                4
            ),
        ]
    );
    assert!(app.current_session.messages[3].content.contains(listing));
    assert!(!app.pending_command.is_pending());
    assert_eq!(app.current_session.title, prompt);
}

#[test]
fn every_word_of_confirmation_runs_the_pending_command_without_the_model() {
    for word in ["yes", "y", "sure", "go ahead", "execute", "run it", "do it", " YES \n", "Go Ahead"] {
        let mut app = app();
        app.pending_command.set("ls -la".to_string());
        let action = app.handle_user_prompt_at(word.to_string(), at(1));
        assert_eq!(action, run("ls -la"), "{:?}", word);
        assert!(!app.pending_command.is_pending());
        assert!(app.cache.entries().is_empty());
        assert_eq!(app.current_session.messages, vec![user(word, 1)]);
    }
}

#[test]
fn a_confirmation_wins_over_a_cached_reply() {
    let mut app = app();
    app.cache.put("unified", "yes", "cached".to_string());
    app.pending_command.set("pwd".to_string());
    assert_eq!(app.handle_user_prompt_at("yes".to_string(), at(1)), run("pwd"));
    assert_eq!(app.current_session.messages, vec![user("yes", 1)]);
}

#[test]
fn a_confirmation_with_nothing_pending_is_an_ordinary_prompt() {
    let mut app = app();
    let action = app.handle_user_prompt_at("yes".to_string(), at(1));
    assert_eq!(action, query("yes", Vec::new()));
    assert!(!app.pending_command.is_pending());
}

#[test]
fn another_answer_keeps_the_command_pending_and_asks_the_model() {
    let mut app = app();
    app.pending_command.set("ls".to_string());
    let action = app.handle_user_prompt_at("what does it do?".to_string(), at(1));
    assert_eq!(action, query("what does it do?", Vec::new()));
    assert_eq!(app.pending_command.peek(), Some(&"ls".to_string()));
    let action = app.handle_model_result_at("what does it do?", Ok(Some("It lists files.".to_string())), at(2));
    assert_eq!(action, TurnAction::Finished);
    assert_eq!(app.pending_command.peek(), Some(&"ls".to_string()));
    assert_eq!(
        app.current_session.messages,
        vec![user("what does it do?", 1), assistant("It lists files.", 2)]
    );
}

#[test]
fn a_new_proposal_replaces_the_pending_one() {
    let mut app = app();
    app.pending_command.set("ls".to_string());
    let action = app.handle_reply_at("Better: `COMMAND: ls -la`".to_string(), at(1));
    assert_eq!(action, TurnAction::Finished);
    assert_eq!(app.pending_command.peek(), Some(&"ls -la".to_string()));
    assert_eq!(app.current_session.messages, vec![assistant("Better: `COMMAND: ls -la`", 1)]);
}

#[test]
fn a_proposal_without_a_closing_backtick_sets_nothing_pending() {
    let mut app = app();
    let action = app.handle_reply_at("Try COMMAND: ls -la".to_string(), at(1));
    assert_eq!(action, TurnAction::Finished);
    assert!(!app.pending_command.is_pending());
    assert_eq!(app.current_session.messages, vec![assistant("Try COMMAND: ls -la", 1)]);
}

#[test]
fn the_model_can_ask_for_the_pending_command_to_run() {
    let mut app = app();
    app.pending_command.set("ls -la".to_string());
    let action = app.handle_reply_at("`EXECUTE_LAST_COMMAND`".to_string(), at(1));
    assert_eq!(action, run("ls -la"));
    assert!(!app.pending_command.is_pending());
    assert!(app.current_session.messages.is_empty());
    app.record_execution_at("ls -la", "a.txt\n", at(2));
    assert_eq!(
        app.current_session.messages,
        vec![assistant("Executing: ls -la\n\nOutput:\na.txt\n", 2)]
    );
}

#[test]
fn an_execution_request_with_nothing_pending_does_nothing() {
    let mut app = app();
    let action = app.handle_reply_at("EXECUTE_LAST_COMMAND".to_string(), at(1));
    assert_eq!(action, TurnAction::Finished);
    assert!(!app.pending_command.is_pending());
    assert!(app.current_session.messages.is_empty());
    assert!(app.cache.entries().is_empty());

    let action = app.handle_user_prompt_at("go".to_string(), at(2));
    assert_eq!(action, query("go", Vec::new()));
    let action = app.handle_model_result_at("go", Ok(Some("EXECUTE_LAST_COMMAND".to_string())), at(3));
    assert_eq!(action, TurnAction::Finished);
    assert!(!app.pending_command.is_pending());
    assert_eq!(app.current_session.messages, vec![user("go", 2)]);
}

#[test]
fn the_same_prompt_is_answered_from_the_cache_the_second_time() {
    let mut app = app();
    assert_eq!(app.handle_user_prompt_at("hello".to_string(), at(1)), query("hello", Vec::new()));
    assert_eq!(
        app.handle_model_result_at("hello", Ok(Some("Hi!".to_string())), at(2)),
        TurnAction::Finished
    );
    assert_eq!(app.cache.get("unified", "hello"), Some("Hi!".to_string()));
    assert_eq!(app.handle_user_prompt_at("hello".to_string(), at(3)), TurnAction::Finished);
    assert_eq!(
        app.current_session.messages,
        vec![user("hello", 1), assistant("Hi!", 2), user("hello", 3), assistant("Hi!", 3)]
    );
}

#[test]
fn the_cache_outlives_a_change_of_session() {
    let mut app = app();
    app.handle_user_prompt_at("hello".to_string(), at(1));
    app.handle_model_result_at("hello", Ok(Some("Hi!".to_string())), at(2));
    app.start_session(ChatSession::new("next".to_string(), at(3)));
    app.load_session("current");
    app.start_session(ChatSession::new("third".to_string(), at(4)));
    assert_eq!(app.handle_user_prompt_at("hello".to_string(), at(5)), TurnAction::Finished);
    assert_eq!(app.current_session.messages, vec![user("hello", 5), assistant("Hi!", 5)]);
}

#[test]
fn a_cached_proposal_becomes_pending_again() {
    let mut app = app();
    app.cache.put("unified", "list", "`COMMAND: ls`".to_string());
    assert_eq!(app.handle_user_prompt_at("list".to_string(), at(1)), TurnAction::Finished);
    assert_eq!(app.pending_command.peek(), Some(&"ls".to_string()));
    assert_eq!(app.current_session.messages, vec![user("list", 1), assistant("`COMMAND: ls`", 1)]);
}

#[test]
fn a_prompt_cached_under_another_mode_is_asked_anew() {
    let mut app = app();
    app.cache.put("command", "list", "ls".to_string());
    assert_eq!(app.handle_user_prompt_at("list".to_string(), at(1)), query("list", Vec::new()));
}

#[test]
fn a_failure_of_the_model_is_shown_and_cached() {
    let mut app = app();
    assert_eq!(app.handle_user_prompt_at("hello".to_string(), at(1)), query("hello", Vec::new()));
    let action = app.handle_model_result_at("hello", Err("timeout".to_string()), at(2));
    assert_eq!(action, TurnAction::Finished);
    assert_eq!(app.current_session.messages, vec![user("hello", 1), assistant("Error: timeout", 2)]);
    assert_eq!(app.cache.get("unified", "hello"), Some("Error: timeout".to_string()));

    // The failure sticks: the same prompt is answered by the cached error
    // and the model is not asked again.
    let action = app.handle_user_prompt_at("hello".to_string(), at(3));
    assert_eq!(action, TurnAction::Finished);
    assert_eq!(
        app.current_session.messages,
        vec![
            user("hello", 1),
            assistant("Error: timeout", 2),
            user("hello", 3),
            assistant("Error: timeout", 3),
        ]
    );
}

#[test]
fn no_reply_is_shown_as_the_fallback_and_cached() {
    let mut app = app();
    app.handle_user_prompt_at("hm".to_string(), at(1));
    let action = app.handle_model_result_at("hm", Ok(None), at(2));
    assert_eq!(action, TurnAction::Finished);
    assert_eq!(
        app.current_session.messages,
        vec![user("hm", 1), assistant("I'm not sure how to respond to that.", 2)]
    );
    assert_eq!(
        app.cache.get("unified", "hm"),
        Some("I'm not sure how to respond to that.".to_string())
    );
}

#[test]
fn the_reply_for_each_outcome() {
    assert_eq!(reply_text(Ok(Some("Hi!".to_string()))), "Hi!");
    assert_eq!(reply_text(Ok(Some(String::new()))), "");
    assert_eq!(reply_text(Ok(None)), "I'm not sure how to respond to that.");
    assert_eq!(reply_text(Err("timeout".to_string())), "Error: timeout");
    assert_eq!(reply_text(Err(String::new())), "Error: ");
}

#[test]
fn the_history_sent_to_the_model_is_what_was_said_before_the_prompt() {
    let mut app = app();
    app.handle_user_prompt_at("one".to_string(), at(1));
    app.handle_model_result_at("one", Ok(Some("first".to_string())), at(2));
    let action = app.handle_user_prompt_at("two".to_string(), at(3));
    assert_eq!(action, query("two", vec![turn("one", true), turn("first", false)]));
    app.handle_model_result_at("two", Ok(Some("EXECUTE_LAST_COMMAND".to_string())), at(4));
    let action = app.handle_user_prompt_at("three".to_string(), at(5));
    assert_eq!(
        action,
        query("three", vec![turn("one", true), turn("first", false), turn("two", true)])
    );
}

#[test]
fn steps_without_a_given_time_read_the_clock() {
    let mut app = app();
    let action = app.handle_user_prompt("hello".to_string());
    assert_eq!(action, query("hello", Vec::new()));
    let action = app.handle_model_result("hello", Ok(Some("`COMMAND: date`".to_string())));
    assert_eq!(action, TurnAction::Finished);
    assert_eq!(app.handle_user_prompt("y".to_string()), run("date"));
    app.record_execution("date", "today\n");
    let said: Vec<(&str, bool)> =
        app.current_session.messages.iter().map(|m| (m.content.as_str(), m.is_user)).collect();
    assert_eq!(
        said,
        vec![
            ("hello", true),
            ("`COMMAND: date`", false),
            ("y", true),
            ("Executing: date\n\nOutput:\ntoday\n", false),
        ]
    );
    for message in &app.current_session.messages {
        assert!(message.timestamp.secs > 1_600_000_000);
        assert!(!message.is_command);
        assert!(!message.executed);
    }
}

#[test]
fn a_new_chat_stores_a_session_in_which_something_was_said() {
    let mut app = app();
    app.handle_user_prompt_at("hello".to_string(), at(1));
    app.current_input = "half typed".to_string();
    app.selected_session_id = Some("current".to_string());
    let before = app.current_session.clone();
    app.new_chat();
    assert_eq!(app.chat_sessions, vec![before]);
    assert_eq!(app.current_session.title, "New Chat");
    assert!(app.current_session.messages.is_empty());
    assert_ne!(app.current_session.id, "current");
    assert_eq!(app.selected_session_id, None);
    assert_eq!(app.current_input, "");
}

#[test]
fn a_new_chat_drops_a_session_in_which_nothing_was_said() {
    let mut app = app();
    app.new_chat();
    assert!(app.chat_sessions.is_empty());
    app.start_session(ChatSession::new("next".to_string(), at(9)));
    assert!(app.chat_sessions.is_empty());
    assert_eq!(app.current_session, ChatSession::new("next".to_string(), at(9)));
}

#[test]
fn a_new_chat_keeps_the_pending_command_and_the_cache() {
    let mut app = app();
    app.pending_command.set("ls".to_string());
    app.cache.put("unified", "a", "b".to_string());
    app.new_chat();
    assert_eq!(app.pending_command.peek(), Some(&"ls".to_string()));
    assert_eq!(app.cache.get("unified", "a"), Some("b".to_string()));
}

#[test]
fn loading_a_session_swaps_it_with_the_active_one() {
    let a = session_with("a", "first");
    let b = session_with("b", "second");
    let c = session_with("c", "third");
    let mut app = LlmTermApp::with_session(vec![a.clone(), b.clone()], c.clone());
    app.load_session("a");
    assert_eq!(app.current_session, a);
    assert_eq!(app.chat_sessions, vec![b.clone(), c.clone()]);
    assert_eq!(app.selected_session_id, Some("a".to_string()));
    app.load_session("c");
    assert_eq!(app.current_session, c);
    assert_eq!(app.chat_sessions, vec![b, a]);
    assert_eq!(app.selected_session_id, Some("c".to_string()));
}

#[test]
fn loading_an_unknown_session_changes_nothing() {
    let a = session_with("a", "first");
    let c = session_with("c", "third");
    let mut app = LlmTermApp::with_session(vec![a.clone()], c.clone());
    app.load_session("zzz");
    assert_eq!(app.current_session, c);
    assert_eq!(app.chat_sessions, vec![a.clone()]);
    assert_eq!(app.selected_session_id, None);
    app.load_session("c");
    assert_eq!(app.current_session, c);
    assert_eq!(app.chat_sessions, vec![a]);
    assert_eq!(app.selected_session_id, None);
}

#[test]
fn a_loaded_session_is_held_exactly_once() {
    let a = session_with("a", "first");
    let b = session_with("b", "second");
    let c = session_with("c", "third");
    let mut app = LlmTermApp::with_session(vec![a, b, c], ChatSession::new("d".to_string(), at(0)));
    for id in ["b", "a", "b", "d", "c", "c", "a"] {
        app.load_session(id);
        assert_eq!(app.current_session.id, id);
        for each in ["a", "b", "c", "d"] {
            assert_eq!(count_with_id(&app, each), 1, "{} after loading {}", each, id);
        }
        assert_eq!(app.chat_sessions.len(), 3);
    }
}

#[test]
fn loading_swaps_an_empty_active_session_in_too() {
    let a = session_with("a", "first");
    let mut app = LlmTermApp::with_session(vec![a.clone()], ChatSession::new("e".to_string(), at(0)));
    app.load_session("a");
    assert_eq!(app.current_session, a);
    assert_eq!(app.chat_sessions, vec![ChatSession::new("e".to_string(), at(0))]);
}

#[test]
fn of_two_stored_sessions_with_one_identifier_the_first_is_loaded() {
    let first = session_with("twin", "first");
    let second = session_with("twin", "second");
    let active = session_with("c", "third");
    let mut app = LlmTermApp::with_session(vec![first.clone(), second.clone()], active.clone());
    app.load_session("twin");
    assert_eq!(app.current_session, first);
    assert_eq!(app.chat_sessions, vec![second, active]);
    assert_eq!(count_with_id(&app, "twin"), 2);
}

#[test]
fn the_conversation_awaits_confirmation_while_a_command_is_pending() {
    let mut app = app();
    assert_eq!(app.state(), ConversationState::Idle);
    app.handle_user_prompt_at("list".to_string(), at(1));
    assert_eq!(app.state(), ConversationState::Idle);
    app.handle_model_result_at("list", Ok(Some("`COMMAND: ls`".to_string())), at(2));
    assert_eq!(app.state(), ConversationState::AwaitingConfirmation);
    app.handle_user_prompt_at("why?".to_string(), at(3));
    app.handle_model_result_at("why?", Ok(Some("Because.".to_string())), at(4));
    assert_eq!(app.state(), ConversationState::AwaitingConfirmation);
    assert_eq!(app.handle_user_prompt_at("do it".to_string(), at(5)), run("ls"));
    assert_eq!(app.state(), ConversationState::Idle);
    app.record_execution_at("ls", "a\n", at(6));
    assert_eq!(app.state(), ConversationState::Idle);
}

#[test]
fn the_engine_remembers_under_its_own_mode() {
    assert_eq!(MODE_TAG, "unified");
    assert_eq!(FALLBACK_REPLY, "I'm not sure how to respond to that.");
    let mut app = app();
    app.handle_model_result_at("hello", Ok(None), at(1));
    assert_eq!(app.cache.get(MODE_TAG, "hello"), Some(FALLBACK_REPLY.to_string()));
    assert_eq!(app.cache.entries().len(), 1);
}

#[test]
fn only_more_than_white_space_can_be_sent() {
    let mut app = app();
    assert!(!app.can_send());
    app.current_input = "  \t".to_string();
    assert!(!app.can_send());
    app.current_input = " hi ".to_string();
    assert!(app.can_send());
}

#[test]
fn the_selected_session_is_the_one_loaded_last() {
    let mut app = LlmTermApp::with_session(
        vec![session_with("a", "first"), session_with("b", "second")],
        ChatSession::new("c".to_string(), at(0)),
    );
    assert!(!app.is_selected("a"));
    app.load_session("b");
    assert!(app.is_selected("b"));
    assert!(!app.is_selected("a"));
    assert!(!app.is_selected(""));
    app.new_chat();
    assert!(!app.is_selected("b"));
}
