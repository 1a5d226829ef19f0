use evocode::bash::{
    command_report, denied_result, is_approval, limit_output, parse_bash_call, BashCall,
    MAX_OUTPUT_BYTES,
};
use evocode::message::{FunctionCall, ToolCall};

fn tool_call(name: &str, arguments: &str) -> ToolCall {
    ToolCall {
        id: String::from("call_123"),
        kind: String::from("function"),
        function: FunctionCall {
            name: String::from(name),
            arguments: String::from(arguments),
        },
    }
}

/// Reads tool-call arguments as `{"command": <string>}`, as the
/// application does.
fn command_argument(arguments: &str) -> Result<String, String> {
    let value: serde_json::Value =
        serde_json::from_str(arguments).map_err(|error| error.to_string())?;
    value["command"]
        .as_str()
        .map(String::from)
        .ok_or_else(|| String::from("missing field `command`"))
}

fn parse(call: &ToolCall) -> Result<BashCall, String> {
    parse_bash_call(call, command_argument(&call.function.arguments))
}

#[test]
fn parses_valid_bash_arguments() {
    let parsed = parse(&tool_call("bash", r#"{"command":"pwd"}"#)).expect("arguments should parse");

    assert_eq!(parsed.tool_call_id, "call_123");
    assert_eq!(parsed.command, "pwd");
}

#[test]
fn rejects_unknown_tool() {
    let error = parse(&tool_call("read_file", r#"{"command":"pwd"}"#))
        .expect_err("unknown tool should fail");

    assert_eq!(error, "Unknown tool: read_file");
}

#[test]
fn rejects_malformed_arguments() {
    let error = parse(&tool_call("bash", "not json")).expect_err("invalid arguments should fail");

    assert!(error.starts_with("Invalid Bash tool arguments:"));
}

#[test]
fn rejects_empty_command() {
    let error = parse(&tool_call("bash", r#"{"command":"  "}"#)).expect_err("empty command should fail");

    assert_eq!(error, "Bash command cannot be empty");
}

#[test]
fn rejects_other_call_types_first() {
    let mut call = tool_call("read_file", "not json");
    call.kind = String::from("retrieval");
    assert_eq!(
        parse(&call).expect_err("wrong type"),
        "Unsupported tool call type: retrieval"
    );
}

#[test]
fn approves_only_y_or_yes() {
    for answer in ["y", "Y\n", "yes", "YeS\r\n", "yes\n"] {
        assert!(is_approval(answer), "{answer:?} should approve");
    }
    for answer in ["", "n", "no", "yess", "y e s", "ok", " y", "yes ", " yes "] {
        assert!(!is_approval(answer), "{answer:?} should deny");
    }
}

#[test]
fn keeps_the_beginning_and_end_of_long_output() {
    let short = vec![b'a'; MAX_OUTPUT_BYTES];
    assert_eq!(limit_output(&short), short);
    let mut long = vec![b'a'; MAX_OUTPUT_BYTES / 2];
    long.extend(vec![b'm'; 10]);
    long.extend(vec![b'z'; MAX_OUTPUT_BYTES / 2]);
    let limited = limit_output(&long);
    let text = String::from_utf8(limited).expect("ascii");
    assert!(text.starts_with(&"a".repeat(MAX_OUTPUT_BYTES / 2)));
    assert!(text.ends_with(&"z".repeat(MAX_OUTPUT_BYTES / 2)));
    assert!(text.contains("\n[... output truncated ...]\n"));
    assert!(!text.contains('m'));
}

#[test]
fn reports_command_results() {
    let call = BashCall {
        tool_call_id: String::from("call_9"),
        command: String::from("ls"),
    };
    let report = command_report(&call, Some(0), false, "a.txt\n", "");
    assert_eq!(report.role, "tool");
    assert_eq!(report.tool_call_id.as_deref(), Some("call_9"));
    assert_eq!(
        report.content.as_deref(),
        Some("Exit code: 0\nStdout:\na.txt\n\nStderr:\n")
    );
    let report = command_report(&call, Some(-2), false, "", "boom");
    assert_eq!(
        report.content.as_deref(),
        Some("Exit code: -2\nStdout:\n\nStderr:\nboom")
    );
    let report = command_report(&call, None, true, "", "");
    assert!(report.content.as_deref().unwrap_or_default().starts_with("Command timed out"));
    let denied = denied_result(&call);
    assert_eq!(denied.content.as_deref(), Some("The user denied this command."));
    assert_eq!(denied.tool_call_id.as_deref(), Some("call_9"));
}
