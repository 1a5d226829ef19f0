use evocode::message::{FunctionCall, Message, ToolCall};
use evocode::repl::{
    classify_input, format_history, help_text, message_preview, single_line_preview, ReplCommand,
    ReplInput, HISTORY_PREVIEW_CHARS,
};

#[test]
fn turns_text_into_a_prompt() {
    assert_eq!(
        classify_input("  explain this project  \n"),
        ReplInput::Prompt(String::from("explain this project"))
    );
}

#[test]
fn recognizes_exit_commands() {
    for command in ["exit", "QUIT", "/exit", "/QUIT"] {
        assert_eq!(classify_input(command), ReplInput::Exit);
    }
}

#[test]
fn recognizes_conversation_commands() {
    assert_eq!(
        classify_input("/HELP"),
        ReplInput::Command(ReplCommand::Help)
    );
    assert_eq!(
        classify_input("/clear"),
        ReplInput::Command(ReplCommand::Clear)
    );
    assert_eq!(
        classify_input("/history"),
        ReplInput::Command(ReplCommand::History)
    );
    assert_eq!(
        classify_input("/config"),
        ReplInput::Command(ReplCommand::Config)
    );
    assert_eq!(
        classify_input("/save"),
        ReplInput::Command(ReplCommand::Save(None))
    );
    assert_eq!(
        classify_input("/load my session.json"),
        ReplInput::Command(ReplCommand::Load(Some(String::from("my session.json"))))
    );
}

#[test]
fn identifies_unknown_slash_commands() {
    assert_eq!(
        classify_input("/missing"),
        ReplInput::UnknownCommand(String::from("/missing"))
    );
}

#[test]
fn ignores_empty_input() {
    assert_eq!(classify_input("  \n"), ReplInput::Empty);
}

#[test]
fn classifies_edge_cases() {
    assert_eq!(classify_input("exit now"), ReplInput::Prompt(String::from("exit now")));
    assert_eq!(
        classify_input("/SAVE\u{3000}a b \t"),
        ReplInput::Command(ReplCommand::Save(Some(String::from("a b"))))
    );
    assert_eq!(
        classify_input("/helpme"),
        ReplInput::UnknownCommand(String::from("/helpme"))
    );
    assert_eq!(
        classify_input("/help extra"),
        ReplInput::Command(ReplCommand::Help)
    );
    assert_eq!(classify_input("\u{a0}\u{2003}"), ReplInput::Empty);
}

#[test]
fn help_lists_the_commands() {
    assert!(help_text().contains("/history      Show this conversation"));
    assert!(help_text().starts_with("Commands:\n"));
}

#[test]
fn formats_bounded_conversation_history() {
    let messages = vec![
        Message::text("system", String::from("instructions")),
        Message::text("user", String::from("first line\nsecond line")),
        Message::text("assistant", "x".repeat(HISTORY_PREVIEW_CHARS + 10)),
        Message::tool_result(String::from("call_123"), String::from("Exit code: 0")),
    ];

    let history = format_history(&messages);

    assert!(!history.contains("instructions"));
    assert!(history.contains("1. User: first line ↩ second line"));
    assert!(history.contains("2. Assistant:"));
    assert!(history.contains("xxx..."));
    assert!(history.contains("3. Tool (call_123): Exit code: 0"));
}

#[test]
fn reports_empty_conversation_history() {
    let messages = vec![Message::text("system", String::from("instructions"))];

    assert_eq!(format_history(&messages), "No conversation history.");
}

#[test]
fn history_only_shows_the_most_recent_entries() {
    let mut messages = vec![Message::text("system", String::from("instructions"))];
    messages.extend((0..25).map(|index| Message::text("user", format!("message {index}"))));

    let history = format_history(&messages);

    assert!(history.contains("last 20 of 25 entries"));
    assert!(!history.contains("1. User: message 0"));
    assert!(history.contains("6. User: message 5"));
    assert!(history.contains("25. User: message 24"));
}

#[test]
fn history_is_exact_for_a_short_conversation() {
    let messages = vec![
        Message::text("user", String::from("hi")),
        Message::text("observer", String::from("")),
    ];
    assert_eq!(
        format_history(&messages),
        "Conversation history:\n1. User: hi\n2. observer: (empty)"
    );
}

#[test]
fn previews_tool_calls_and_line_breaks() {
    let message = Message {
        role: String::from("assistant"),
        content: Some(String::from("a\r\nb\rc")),
        tool_calls: vec![ToolCall {
            id: String::from("call_1"),
            kind: String::from("function"),
            function: FunctionCall {
                name: String::from("bash"),
                arguments: String::from(r#"{"command":"pwd"}"#),
            },
        }],
        tool_call_id: None,
    };
    assert_eq!(
        message_preview(&message),
        r#"a ↩ b ↩ c | tool call bash {"command":"pwd"}"#
    );
    let bare = Message {
        role: String::from("tool"),
        content: None,
        tool_calls: Vec::new(),
        tool_call_id: None,
    };
    assert_eq!(message_preview(&bare), "(empty)");
    assert_eq!(single_line_preview(&"y".repeat(200)), "y".repeat(200));
    assert_eq!(
        single_line_preview(&"y".repeat(201)),
        format!("{}...", "y".repeat(200))
    );
}

#[test]
fn preview_matches_the_replacement_chain() {
    let long = "x\r\n".repeat(90);
    for text in ["a\r\nb\rc\nd", "\r\r\n\n\r", "plain", "", long.as_str()] {
        let replaced = text.replace("\r\n", "\n").replace('\r', "\n").replace('\n', " ↩ ");
        let mut expected: String = replaced.chars().take(200).collect();
        if replaced.chars().count() > 200 {
            expected.push_str("...");
        }
        assert_eq!(single_line_preview(text), expected);
    }
    assert_eq!(single_line_preview("a\r\nb\rc\nd"), "a ↩ b ↩ c ↩ d");
}

#[test]
fn history_skips_system_messages_wherever_they_stand() {
    let messages = vec![
        Message::text("system", String::from("rules")),
        Message::text("user", String::from("one")),
        Message::text("system", String::from("more rules")),
        Message::text("assistant", String::from("two")),
    ];
    let others: Vec<Message> = messages
        .iter()
        .filter(|message| message.role != "system")
        .cloned()
        .collect();
    assert_eq!(format_history(&messages), format_history(&others));
    assert_eq!(
        format_history(&messages),
        "Conversation history:\n1. User: one\n2. Assistant: two"
    );
}

#[test]
fn history_has_a_heading_and_one_line_per_listed_entry() {
    let messages: Vec<Message> = (1..=23)
        .map(|n| Message::text("user", format!("line {n}\nnext")))
        .collect();
    let history = format_history(&messages);
    let lines: Vec<&str> = history.lines().collect();
    assert_eq!(lines.len(), 21);
    assert_eq!(lines[0], "Conversation history (last 20 of 23 entries):");
    assert_eq!(lines[1], "4. User: line 4 ↩ next");
    assert_eq!(lines[20], "23. User: line 23 ↩ next");
}
