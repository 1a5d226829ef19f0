use evocode::message::{conversation_messages, Message};
use evocode::repl::format_history;
use evocode::session::{
    accept_loaded_session, check_load_size, check_save_size, restore_conversation,
    saved_session, session_file, SavedSession, DEFAULT_SESSION_FILE, MAX_SESSION_BYTES,
    SESSION_VERSION,
};

#[test]
fn saves_and_loads_conversation_messages() {
    let messages = vec![
        Message::text("system", String::from("old instructions")),
        Message::text("user", String::from("hello")),
        Message::text("assistant", String::from("hi")),
    ];

    let session = saved_session(&messages);
    let loaded = accept_loaded_session(session).expect("session should load");

    assert_eq!(loaded.len(), 2);
    assert_eq!(loaded[0].role, "user");
    assert_eq!(loaded[0].content.as_deref(), Some("hello"));
    assert_eq!(loaded[1].role, "assistant");
    assert_eq!(loaded[1].content.as_deref(), Some("hi"));
}

#[test]
fn rejects_unsupported_session_versions() {
    let session = SavedSession {
        version: 2,
        messages: Vec::new(),
    };

    let error = accept_loaded_session(session).expect_err("session should be rejected");

    assert_eq!(error, "Unsupported session version 2 (expected 1)");
}

#[test]
fn rejects_saved_system_messages() {
    let session = SavedSession {
        version: 1,
        messages: vec![Message::text("system", String::from("unsafe"))],
    };

    let error = accept_loaded_session(session).expect_err("session should be rejected");

    assert_eq!(error, "Session contains an unexpected system message");
}

#[test]
fn saved_sessions_carry_the_current_version() {
    let session = saved_session(&conversation_messages("/work"));
    assert_eq!(session.version, SESSION_VERSION);
    assert!(session.messages.is_empty());
}

#[test]
fn refuses_sessions_over_ten_mebibytes() {
    assert!(check_save_size(MAX_SESSION_BYTES).is_ok());
    assert!(check_load_size(0).is_ok());
    assert_eq!(
        check_save_size(MAX_SESSION_BYTES + 1).err(),
        Some(String::from("Session is too large to save (maximum 10 MiB)"))
    );
    assert_eq!(
        check_load_size(u64::MAX).err(),
        Some(String::from("Session is too large to load (maximum 10 MiB)"))
    );
}

#[test]
fn picks_the_session_file() {
    assert_eq!(session_file(None), DEFAULT_SESSION_FILE);
    assert_eq!(session_file(None), ".rust-terminal-agent-session.json");
    assert_eq!(session_file(Some(String::from("my.json"))), "my.json");
}

#[test]
fn restored_conversation_starts_with_a_fresh_system_prompt() {
    let loaded = vec![Message::text("user", String::from("hello"))];
    let restored = restore_conversation("/work", loaded);
    assert_eq!(restored.len(), 2);
    assert_eq!(restored[0].role, "system");
    assert_eq!(restored[1].content.as_deref(), Some("hello"));
    assert_eq!(
        format_history(&restored),
        "Conversation history:\n1. User: hello"
    );
    assert_eq!(
        format_history(&conversation_messages("/work")),
        "No conversation history."
    );
}
