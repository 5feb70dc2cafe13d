use llm_term::model::ConversationMessage;
use llm_term::session::{derive_title, ChatMessage, ChatSession, Timestamp, TITLE_LIMIT};

fn at(secs: i64) -> Timestamp {
    Timestamp { secs, nanos: 0 }
}

#[test]
fn a_new_session_is_untitled_and_empty() {
    let session = ChatSession::new("abc".to_string(), at(7));
    assert_eq!(session.id, "abc");
    assert_eq!(session.title, "New Chat");
    assert!(session.messages.is_empty());
    assert_eq!(session.created_at, at(7));
    assert!(!session.has_user_message());
}

#[test]
fn default_sessions_are_untitled_and_differ_in_their_identifier() {
    let one = ChatSession::default();
    let two = ChatSession::default();
    assert_eq!(one.title, "New Chat");
    assert!(one.messages.is_empty());
    assert_ne!(one.id, two.id);
    assert!(!one.id.is_empty());
    assert!(one.created_at.secs > 1_600_000_000);
    assert!(one.created_at.nanos < 2_000_000_000);
}

#[test]
fn a_short_prompt_is_its_own_title() {
    assert_eq!(derive_title("list files in this folder"), "list files in this folder");
    assert_eq!(derive_title(""), "");
}

#[test]
fn a_long_prompt_is_cut_to_thirty_characters() {
    let prompt = "0123456789012345678901234567890123456789";
    assert_eq!(derive_title(prompt), "012345678901234567890123456789");
    assert_eq!(derive_title(prompt).chars().count(), TITLE_LIMIT);
    let exact = "012345678901234567890123456789";
    assert_eq!(derive_title(exact), exact);
}

#[test]
fn the_cut_counts_characters_not_bytes() {
    let prompt = "éééééééééééééééééééééééééééééééééé";
    assert_eq!(derive_title(prompt).chars().count(), 30);
    assert_eq!(derive_title(prompt), "éééééééééééééééééééééééééééééé");
}

#[test]
fn a_title_loses_the_white_space_it_ends_in() {
    assert_eq!(derive_title("how are you   "), "how are you");
    assert_eq!(derive_title("  how are you"), "  how are you");
    let prompt = "please show me all the files  that are hidden";
    assert_eq!(derive_title(prompt), "please show me all the files");
    assert_eq!(derive_title("   "), "");
}

#[test]
fn the_first_user_message_gives_the_title() {
    let mut session = ChatSession::new("s".to_string(), at(0));
    session.push_user_message("list files in this folder".to_string(), at(1));
    assert_eq!(session.title, "list files in this folder");
    assert_eq!(
        session.messages,
        vec![ChatMessage {
            content: "list files in this folder".to_string(),
            is_user: true,
            timestamp: at(1),
            is_command: false,
            executed: false,
        }]
    );
    assert!(session.has_user_message());
}

#[test]
fn the_title_is_set_once_and_for_all() {
    let mut session = ChatSession::new("s".to_string(), at(0));
    session.push_user_message("New Chat".to_string(), at(1));
    assert_eq!(session.title, "New Chat");
    session.push_assistant_message("Hello!".to_string(), at(2));
    session.push_user_message("something else".to_string(), at(3));
    assert_eq!(session.title, "New Chat");
    assert_eq!(session.messages.len(), 3);
}

#[test]
fn an_assistant_message_does_not_give_a_title() {
    let mut session = ChatSession::new("s".to_string(), at(0));
    session.push_assistant_message("Welcome".to_string(), at(1));
    assert_eq!(session.title, "New Chat");
    assert!(!session.has_user_message());
    session.push_user_message("hi".to_string(), at(2));
    assert_eq!(session.title, "hi");
    assert_eq!(
        session.messages[0],
        ChatMessage::from_assistant("Welcome".to_string(), at(1))
    );
    assert_eq!(session.messages[1], ChatMessage::from_user("hi".to_string(), at(2)));
}

#[test]
fn messages_stay_in_the_order_they_were_appended() {
    let mut session = ChatSession::new("s".to_string(), at(0));
    session.push_user_message("one".to_string(), at(1));
    session.push_assistant_message("two".to_string(), at(2));
    session.push_user_message("three".to_string(), at(3));
    let said: Vec<&str> = session.messages.iter().map(|m| m.content.as_str()).collect();
    assert_eq!(said, vec!["one", "two", "three"]);
}

#[test]
fn history_maps_every_message_to_a_turn() {
    let mut session = ChatSession::new("s".to_string(), at(0));
    assert_eq!(session.history(), Vec::<ConversationMessage>::new());
    session.push_user_message("one".to_string(), at(1));
    session.push_assistant_message("two".to_string(), at(2));
    assert_eq!(
        session.history(),
        vec![
            ConversationMessage { content: "one".to_string(), is_user: true },
            ConversationMessage { content: "two".to_string(), is_user: false },
        ]
    );
}
