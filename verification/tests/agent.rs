use evocode::agent::{agent_step, run_turn, AgentAction, AgentEvent, AgentState, TurnOutcome};
use evocode::message::{conversation_messages, FunctionCall, Message, ToolCall};

/// A model that checks the conversation it is sent and answers with `reply`.
fn fake_send(messages: &[Message], reply: Result<Message, String>) -> Result<Message, String> {
    assert_eq!(messages.len(), 2);
    assert_eq!(messages[0].role, "system");
    reply
}

fn initial_messages(prompt: String) -> Vec<Message> {
    let mut messages = conversation_messages("/work/project");
    messages.push(Message::text("user", prompt));
    messages
}

#[test]
fn appends_assistant_response_to_history() {
    let mut messages = initial_messages(String::from("test prompt"));

    let response = fake_send(&messages, Ok(Message::text("assistant", String::from("fake response"))));
    let outcome = run_turn(&mut messages, response)
    .expect("turn should succeed");

    match outcome {
        TurnOutcome::FinalText(response) => assert_eq!(response, "fake response"),
        TurnOutcome::ToolCalls(_) => panic!("expected final text"),
    }
    assert_eq!(messages.len(), 3);
    assert_eq!(messages[2].role, "assistant");
    assert_eq!(messages[2].content.as_deref(), Some("fake response"));
}

#[test]
fn leaves_history_unchanged_when_provider_fails() {
    let mut messages = initial_messages(String::from("test prompt"));

    let response = fake_send(&messages, Err(String::from("provider failed")));
    let error = run_turn(&mut messages, response)
        .expect_err("turn should fail");

    assert_eq!(error, "provider failed");
    assert_eq!(messages.len(), 2);
}

#[test]
fn returns_tool_calls_and_appends_assistant_message() {
    let mut messages = initial_messages(String::from("show the current directory"));
    let response = Message {
        role: String::from("assistant"),
        content: None,
        tool_calls: vec![ToolCall {
            id: String::from("call_123"),
            kind: String::from("function"),
            function: FunctionCall {
                name: String::from("bash"),
                arguments: String::from(r#"{"command":"pwd"}"#),
            },
        }],
        tool_call_id: None,
    };

    let response = fake_send(&messages, Ok(response));
    let outcome = run_turn(&mut messages, response).expect("turn should succeed");

    match outcome {
        TurnOutcome::ToolCalls(tool_calls) => {
            assert_eq!(tool_calls.len(), 1);
            assert_eq!(tool_calls[0].id, "call_123");
            assert_eq!(tool_calls[0].function.name, "bash");
        }
        TurnOutcome::FinalText(_) => panic!("expected tool calls"),
    }
    assert_eq!(messages.len(), 3);
    assert_eq!(messages[2].role, "assistant");
    assert_eq!(messages[2].tool_calls.len(), 1);
}

#[test]
fn refuses_a_response_without_text_or_tool_calls() {
    let mut messages = initial_messages(String::from("test prompt"));
    let response = Message {
        role: String::from("assistant"),
        content: None,
        tool_calls: Vec::new(),
        tool_call_id: None,
    };
    let error = run_turn(&mut messages, Ok(response)).expect_err("turn should fail");
    assert_eq!(error, "The model response contained no text or tool calls");
    assert_eq!(messages.len(), 2);
}

fn bash_call_response(command: &str) -> Message {
    Message {
        role: String::from("assistant"),
        content: None,
        tool_calls: vec![ToolCall {
            id: String::from("call_1"),
            kind: String::from("function"),
            function: FunctionCall {
                name: String::from("bash"),
                arguments: format!(r#"{{"command":"{command}"}}"#),
            },
        }],
        tool_call_id: None,
    }
}

fn command_of(arguments: &str) -> Result<String, String> {
    let value: serde_json::Value = serde_json::from_str(arguments).map_err(|e| e.to_string())?;
    value["command"]
        .as_str()
        .map(String::from)
        .ok_or_else(|| String::from("missing field `command`"))
}

#[test]
fn runs_an_approved_command_and_answers() {
    let mut messages = initial_messages(String::from("where am I?"));
    let mut state = AgentState::new(5);
    let mut action = agent_step(&mut state, &mut messages, AgentEvent::Start);
    assert!(matches!(action, AgentAction::AskModel));
    action = agent_step(
        &mut state,
        &mut messages,
        AgentEvent::ModelResponse(Ok(bash_call_response("pwd"))),
    );
    let arguments = match action {
        AgentAction::ReadArguments(arguments) => arguments,
        _ => panic!("expected the arguments to be read"),
    };
    action = agent_step(&mut state, &mut messages, AgentEvent::Arguments(command_of(&arguments)));
    assert!(matches!(&action, AgentAction::AskApproval(c) if c == "pwd"));
    action = agent_step(&mut state, &mut messages, AgentEvent::Answer(String::from("yes\n")));
    assert!(matches!(&action, AgentAction::RunCommand(c) if c == "pwd"));
    action = agent_step(
        &mut state,
        &mut messages,
        AgentEvent::Finished {
            exit_code: Some(0),
            timed_out: false,
            stdout: b"/work\n".to_vec(),
            stderr: Vec::new(),
        },
    );
    assert!(matches!(action, AgentAction::AskModel));
    assert_eq!(messages.len(), 4);
    assert_eq!(messages[3].tool_call_id.as_deref(), Some("call_1"));
    assert_eq!(
        messages[3].content.as_deref(),
        Some("Exit code: 0\nStdout:\n/work\n\nStderr:\n")
    );
    action = agent_step(
        &mut state,
        &mut messages,
        AgentEvent::ModelResponse(Ok(Message::text("assistant", String::from("In /work.")))),
    );
    assert!(matches!(&action, AgentAction::Finish(t) if t == "In /work."));
    assert_eq!(messages.len(), 5);
}

#[test]
fn a_denied_command_never_runs() {
    let mut messages = initial_messages(String::from("clean up"));
    let mut state = AgentState::new(5);
    agent_step(&mut state, &mut messages, AgentEvent::Start);
    agent_step(
        &mut state,
        &mut messages,
        AgentEvent::ModelResponse(Ok(bash_call_response("rm -rf build"))),
    );
    agent_step(
        &mut state,
        &mut messages,
        AgentEvent::Arguments(Ok(String::from("rm -rf build"))),
    );
    let action = agent_step(&mut state, &mut messages, AgentEvent::Answer(String::from("no")));
    assert!(matches!(action, AgentAction::AskModel));
    assert_eq!(
        messages.last().and_then(|m| m.content.as_deref()),
        Some("The user denied this command.")
    );
}

#[test]
fn a_malformed_call_is_reported_to_the_model() {
    let mut messages = initial_messages(String::from("go"));
    let mut state = AgentState::new(1);
    agent_step(&mut state, &mut messages, AgentEvent::Start);
    agent_step(
        &mut state,
        &mut messages,
        AgentEvent::ModelResponse(Ok(bash_call_response("ls"))),
    );
    let action = agent_step(
        &mut state,
        &mut messages,
        AgentEvent::Arguments(Err(String::from("expected value"))),
    );
    assert_eq!(
        messages.last().and_then(|m| m.content.as_deref()),
        Some("Invalid Bash tool arguments: expected value")
    );
    match action {
        AgentAction::Fail(error) => {
            assert_eq!(error, "The agent stopped after reaching the maximum of 1 turns")
        }
        _ => panic!("the single turn is used up"),
    }
}

#[test]
fn stops_after_the_turn_limit() {
    let mut messages = initial_messages(String::from("loop"));
    let mut state = AgentState::new(2);
    let mut requests = 0;
    let mut event = AgentEvent::Start;
    loop {
        match agent_step(&mut state, &mut messages, event) {
            AgentAction::AskModel => {
                requests += 1;
                event = AgentEvent::ModelResponse(Ok(bash_call_response("true")));
            }
            AgentAction::ReadArguments(arguments) => {
                event = AgentEvent::Arguments(command_of(&arguments));
            }
            AgentAction::AskApproval(_) => event = AgentEvent::Answer(String::from("y")),
            AgentAction::RunCommand(_) => {
                event = AgentEvent::NotRun(String::from("no bash here"));
            }
            AgentAction::Finish(_) => panic!("the model never answers"),
            AgentAction::Fail(error) => {
                assert_eq!(error, "The agent stopped after reaching the maximum of 2 turns");
                break;
            }
        }
    }
    assert_eq!(requests, 2);
    assert_eq!(
        messages.last().and_then(|m| m.content.as_deref()),
        Some("Could not run command: no bash here")
    );
}
