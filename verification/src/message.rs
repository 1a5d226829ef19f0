//! Chat messages and tool calls, and the conversation's opening message.
use vstd::prelude::*;
use vstd::string::*;

use crate::text::opt_text;

verus! {

/// The function that a tool call names, with its JSON arguments.
#[derive(Clone, Debug)]
pub struct FunctionCall {
    pub name: String,
    pub arguments: String,
}

/// A tool call that the model requests.
#[derive(Clone, Debug)]
pub struct ToolCall {
    pub id: String,
    pub kind: String,
    pub function: FunctionCall,
}

/// One chat message.
#[derive(Clone, Debug)]
pub struct Message {
    pub role: String,
    pub content: Option<String>,
    pub tool_calls: Vec<ToolCall>,
    pub tool_call_id: Option<String>,
}

pub struct ToolCallView {
    pub id: Seq<char>,
    pub kind: Seq<char>,
    pub name: Seq<char>,
    pub arguments: Seq<char>,
}

pub struct MessageView {
    pub role: Seq<char>,
    pub content: Option<Seq<char>>,
    pub tool_calls: Seq<ToolCallView>,
    pub tool_call_id: Option<Seq<char>>,
}

impl View for ToolCall {
    type V = ToolCallView;

    open spec fn view(&self) -> ToolCallView {
        ToolCallView {
            id: self.id@,
            kind: self.kind@,
            name: self.function.name@,
            arguments: self.function.arguments@,
        }
    }
}

/// The views of a sequence of tool calls.
pub open spec fn tool_calls_view(calls: Seq<ToolCall>) -> Seq<ToolCallView> {
    calls.map_values(|c: ToolCall| c@)
}

impl View for Message {
    type V = MessageView;

    open spec fn view(&self) -> MessageView {
        MessageView {
            role: self.role@,
            content: opt_text(self.content),
            tool_calls: tool_calls_view(self.tool_calls@),
            tool_call_id: opt_text(self.tool_call_id),
        }
    }
}

/// The views of a sequence of messages.
pub open spec fn messages_view(messages: Seq<Message>) -> Seq<MessageView> {
    messages.map_values(|m: Message| m@)
}

/// A copy of an optional string.
pub fn copy_text(o: &Option<String>) -> (r: Option<String>)
    ensures
        opt_text(r) == opt_text(*o),
{
    match o {
        Some(s) => Some(s.clone()),
        None => None,
    }
}

impl ToolCall {
    /// A copy of this tool call.
    pub fn duplicate(&self) -> (r: ToolCall)
        ensures
            r@ == self@,
    {
        ToolCall {
            id: self.id.clone(),
            kind: self.kind.clone(),
            function: FunctionCall {
                name: self.function.name.clone(),
                arguments: self.function.arguments.clone(),
            },
        }
    }
}

/// A copy of a list of tool calls.
pub fn copy_tool_calls(calls: &Vec<ToolCall>) -> (r: Vec<ToolCall>)
    ensures
        tool_calls_view(r@) == tool_calls_view(calls@),
{
    let mut r: Vec<ToolCall> = Vec::new();
    let mut i: usize = 0;
    while i < calls.len()
        invariant
            i <= calls@.len(),
            tool_calls_view(r@) == tool_calls_view(calls@.take(i as int)),
        decreases calls@.len() - i,
    {
        r.push(calls[i].duplicate());
        assert(calls@.take(i + 1) == calls@.take(i as int).push(calls@[i as int]));
        assert(tool_calls_view(calls@.take(i + 1)) == tool_calls_view(calls@.take(i as int)).push(
            calls@[i as int]@,
        ));
        i = i + 1;
    }
    assert(calls@.take(calls@.len() as int) == calls@);
    r
}

impl Message {
    /// A message with a role and text content.
    pub fn text(role: &str, content: String) -> (m: Message)
        ensures
            m@ == (MessageView {
                role: role@,
                content: Some(content@),
                tool_calls: Seq::empty(),
                tool_call_id: None,
            }),
    {
        let m = Message {
            role: String::from_str(role),
            content: Some(content),
            tool_calls: Vec::new(),
            tool_call_id: None,
        };
        assert(tool_calls_view(m.tool_calls@) =~= Seq::empty());
        m
    }

    /// The result of a tool call, answering the call `tool_call_id`.
    pub fn tool_result(tool_call_id: String, content: String) -> (m: Message)
        ensures
            m@ == (MessageView {
                role: "tool"@,
                content: Some(content@),
                tool_calls: Seq::empty(),
                tool_call_id: Some(tool_call_id@),
            }),
    {
        let m = Message {
            role: String::from_str("tool"),
            content: Some(content),
            tool_calls: Vec::new(),
            tool_call_id: Some(tool_call_id),
        };
        assert(tool_calls_view(m.tool_calls@) =~= Seq::empty());
        m
    }

    /// A copy of this message.
    pub fn duplicate(&self) -> (r: Message)
        ensures
            r@ == self@,
    {
        Message {
            role: self.role.clone(),
            content: copy_text(&self.content),
            tool_calls: copy_tool_calls(&self.tool_calls),
            tool_call_id: copy_text(&self.tool_call_id),
        }
    }
}

/// How a path is shown in the system prompt: the `Debug` form of
/// `std::path::Path` (quoted, with special characters escaped).
pub uninterp spec fn path_debug_text(path: Seq<char>) -> Seq<char>;

/// The `Debug` form of the path `path` (`<Path as Debug>::fmt`).
#[verifier::external_body]
fn path_debug(path: &str) -> (r: String)
    ensures
        r@ == path_debug_text(path@),
{
    format!("{:?}", std::path::Path::new(path))
}

pub open spec fn prompt_head() -> Seq<char> {
    "You are Evocode, a terminal coding agent helping the user understand and modify a local project.\n\nCurrent working directory: "@
}

pub open spec fn prompt_rules() -> Seq<char> {
    "\n\nOperating rules:\n- Use the bash tool to inspect files, run commands, edit code, and verify work when needed.\n- Treat tool results as authoritative. Never claim a command succeeded without seeing its result.\n- Work inside the current working directory unless the user explicitly asks otherwise.\n- Inspect relevant files before editing and preserve unrelated user changes.\n- Prefer small, focused changes that directly address the user's request.\n- Run relevant checks after making changes and report any checks you could not run.\n- Avoid destructive commands unless the user explicitly requests them.\n- Each bash call starts in the current working directory; directory changes do not persist between calls.\n- Avoid interactive commands because bash tool calls cannot answer their prompts.\n- Long command output may be truncated in the middle. Use narrower commands when more detail is needed.\n- When no tool is needed, answer the user directly and concisely."@
}

/// The system prompt for an agent working in `working_directory`.
pub open spec fn system_prompt_spec(working_directory: Seq<char>) -> Seq<char> {
    prompt_head() + path_debug_text(working_directory) + prompt_rules()
}

/// The opening message of a conversation in `working_directory`.
pub open spec fn system_message(working_directory: Seq<char>) -> MessageView {
    MessageView {
        role: "system"@,
        content: Some(system_prompt_spec(working_directory)),
        tool_calls: Seq::empty(),
        tool_call_id: None,
    }
}

/// The system prompt that tells the model how to work in `working_directory`.
pub fn system_prompt(working_directory: &str) -> (s: String)
    ensures
        s@ == system_prompt_spec(working_directory@),
{
    let mut s = String::from_str(
        "You are Evocode, a terminal coding agent helping the user understand and modify a local project.\n\nCurrent working directory: ",
    );
    let shown = path_debug(working_directory);
    s.append(shown.as_str());
    s.append(
        "\n\nOperating rules:\n- Use the bash tool to inspect files, run commands, edit code, and verify work when needed.\n- Treat tool results as authoritative. Never claim a command succeeded without seeing its result.\n- Work inside the current working directory unless the user explicitly asks otherwise.\n- Inspect relevant files before editing and preserve unrelated user changes.\n- Prefer small, focused changes that directly address the user's request.\n- Run relevant checks after making changes and report any checks you could not run.\n- Avoid destructive commands unless the user explicitly requests them.\n- Each bash call starts in the current working directory; directory changes do not persist between calls.\n- Avoid interactive commands because bash tool calls cannot answer their prompts.\n- Long command output may be truncated in the middle. Use narrower commands when more detail is needed.\n- When no tool is needed, answer the user directly and concisely.",
    );
    s
}

/// A new conversation: the system prompt alone.
pub fn conversation_messages(working_directory: &str) -> (v: Vec<Message>)
    ensures
        messages_view(v@) == seq![system_message(working_directory@)],
{
    let v = vec![Message::text("system", system_prompt(working_directory))];
    assert(messages_view(v@) =~= seq![system_message(working_directory@)]);
    v
}

} // verus!
