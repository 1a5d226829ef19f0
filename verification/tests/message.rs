use evocode::message::{conversation_messages, system_prompt, Message};

#[test]
fn conversation_contains_system_instruction_and_user_prompt() {
    let mut messages = conversation_messages("/work/project");
    messages.push(Message::text("user", String::from("Fix the parser")));

    assert_eq!(messages.len(), 2);
    assert_eq!(messages[0].role, "system");
    let system_prompt = messages[0]
        .content
        .as_deref()
        .expect("system message should contain text");
    assert!(system_prompt.contains("terminal coding agent"));
    assert!(system_prompt.contains(r#"Current working directory: "/work/project""#));
    assert!(system_prompt.contains("Use the bash tool"));
    assert!(system_prompt.contains("directory changes do not persist"));
    assert!(system_prompt.contains("output may be truncated"));
    assert_eq!(messages[1].role, "user");
    assert_eq!(messages[1].content.as_deref(), Some("Fix the parser"));
    assert!(messages.iter().all(|message| message.tool_calls.is_empty()));
    assert!(
        messages
            .iter()
            .all(|message| message.tool_call_id.is_none())
    );
}

#[test]
fn system_prompt_quotes_and_escapes_the_directory() {
    let prompt = system_prompt("/tmp/a \"b\"");
    assert!(prompt.contains(r#"Current working directory: "/tmp/a \"b\"""#));
    assert!(prompt.starts_with("You are Evocode"));
    assert!(prompt.ends_with("answer the user directly and concisely."));
}

#[test]
fn tool_results_name_their_call() {
    let message = Message::tool_result(String::from("call_123"), String::from("Exit code: 0"));
    assert_eq!(message.role, "tool");
    assert_eq!(message.tool_call_id.as_deref(), Some("call_123"));
    assert_eq!(message.content.as_deref(), Some("Exit code: 0"));
    assert!(message.tool_calls.is_empty());
    let copy = message.duplicate();
    assert_eq!(copy.tool_call_id.as_deref(), Some("call_123"));
}

/// Writes a message in the wire shape that the application sends: absent
/// fields and an empty tool-call list are left out.
fn wire_value(message: &Message) -> serde_json::Value {
    let mut object = serde_json::Map::new();
    object.insert(String::from("role"), serde_json::Value::from(message.role.clone()));
    if let Some(content) = &message.content {
        object.insert(String::from("content"), serde_json::Value::from(content.clone()));
    }
    if !message.tool_calls.is_empty() {
        object.insert(String::from("tool_calls"), serde_json::Value::from(message.tool_calls.len()));
    }
    if let Some(id) = &message.tool_call_id {
        object.insert(String::from("tool_call_id"), serde_json::Value::from(id.clone()));
    }
    serde_json::Value::Object(object)
}

#[test]
fn tool_result_references_original_call() {
    let message = Message::tool_result(String::from("call_123"), String::from("Exit code: 0"));
    let value = wire_value(&message);

    assert_eq!(value["role"], "tool");
    assert_eq!(value["tool_call_id"], "call_123");
    assert_eq!(value["content"], "Exit code: 0");
    assert!(value.get("tool_calls").is_none());
}
