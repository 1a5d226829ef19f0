use evocode::config::Config;
use evocode::conversation::{after_load, after_save, handle_input, ReplAction};
use evocode::message::{conversation_messages, Message};
use evocode::repl::{classify_input, help_text};

fn config() -> Config {
    Config::from_values(Some(String::from("never-print-this-key")), None, None, None)
        .expect("valid")
}

#[test]
fn commands_leave_the_conversation_alone() {
    let mut messages = conversation_messages("/work");
    messages.push(Message::text("user", String::from("hello")));
    let config = config();
    match handle_input(&mut messages, "/work", &config, classify_input("/help")) {
        ReplAction::Print(text) => assert_eq!(text, help_text()),
        _ => panic!("help is printed"),
    }
    match handle_input(&mut messages, "/work", &config, classify_input("/history")) {
        ReplAction::Print(text) => assert_eq!(text, "Conversation history:\n1. User: hello"),
        _ => panic!("history is printed"),
    }
    match handle_input(&mut messages, "/work", &config, classify_input("/config")) {
        ReplAction::Print(text) => {
            assert!(text.contains("Model: openai/gpt-oss-20b"));
            assert!(!text.contains("never-print-this-key"));
        }
        _ => panic!("config is printed"),
    }
    match handle_input(&mut messages, "/work", &config, classify_input("/nope")) {
        ReplAction::Print(text) => assert_eq!(
            text,
            "Unknown command: /nope. Type /help for available commands."
        ),
        _ => panic!("unknown commands are reported"),
    }
    assert!(matches!(
        handle_input(&mut messages, "/work", &config, classify_input("   ")),
        ReplAction::Nothing
    ));
    assert!(matches!(
        handle_input(&mut messages, "/work", &config, classify_input("quit")),
        ReplAction::Exit
    ));
    assert_eq!(messages.len(), 2);
}

#[test]
fn prompts_are_added_and_clear_starts_over() {
    let mut messages = conversation_messages("/work");
    let config = config();
    assert!(matches!(
        handle_input(&mut messages, "/work", &config, classify_input(" fix it ")),
        ReplAction::RunAgent
    ));
    assert_eq!(messages.len(), 2);
    assert_eq!(messages[1].role, "user");
    assert_eq!(messages[1].content.as_deref(), Some("fix it"));
    match handle_input(&mut messages, "/work", &config, classify_input("/clear")) {
        ReplAction::Print(text) => assert_eq!(text, "Conversation cleared."),
        _ => panic!("clearing is reported"),
    }
    assert_eq!(messages.len(), 1);
    assert_eq!(messages[0].role, "system");
}

#[test]
fn save_and_load_name_their_files() {
    let mut messages = conversation_messages("/work");
    messages.push(Message::text("user", String::from("hello")));
    let config = config();
    match handle_input(&mut messages, "/work", &config, classify_input("/save")) {
        ReplAction::Save { path, session } => {
            assert_eq!(path, ".rust-terminal-agent-session.json");
            assert_eq!(session.version, 1);
            assert_eq!(session.messages.len(), 1);
        }
        _ => panic!("saving is asked for"),
    }
    match handle_input(&mut messages, "/work", &config, classify_input("/load old.json")) {
        ReplAction::Load { path } => assert_eq!(path, "old.json"),
        _ => panic!("loading is asked for"),
    }
    assert_eq!(messages.len(), 2);
}

#[test]
fn loading_replaces_the_conversation_only_on_success() {
    let mut messages = conversation_messages("/work");
    messages.push(Message::text("user", String::from("current")));
    let shown = after_load(&mut messages, "/work", "/work/s.json", Err(String::from("broken")));
    assert_eq!(shown, "Error: broken");
    assert_eq!(messages.len(), 2);
    let shown = after_load(
        &mut messages,
        "/work",
        "/work/s.json",
        Ok(vec![
            Message::text("user", String::from("a")),
            Message::text("assistant", String::from("b")),
        ]),
    );
    assert_eq!(shown, "Session loaded from /work/s.json.");
    assert_eq!(messages.len(), 3);
    assert_eq!(messages[0].role, "system");
    assert_eq!(messages[1].content.as_deref(), Some("a"));
    assert_eq!(after_save("/work/s.json", Ok(())), "Session saved to /work/s.json.");
    assert_eq!(after_save("/work/s.json", Err(String::from("disk full"))), "Error: disk full");
}
