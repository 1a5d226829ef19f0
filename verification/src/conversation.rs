//! The conversation loop's decisions: what each line of input does to the
//! conversation and what the user is shown.
use vstd::prelude::*;
use vstd::string::*;

use crate::config::{Config, summary_spec};
use crate::message::{Message, MessageView, conversation_messages, messages_view, system_message};
use crate::repl::{
    ReplCommand, ReplInput, format_history, help_spec, help_text, history_entries, history_spec,
};
use crate::session::{
    SESSION_VERSION, SavedSession, restore_conversation, saved_session, session_file,
    session_file_spec,
};
use crate::text::opt_text;

verus! {

/// What the program does after a line of input.
pub enum ReplAction {
    /// Show this text.
    Print(String),
    /// Write this session to the file `path` (relative to the working
    /// directory).
    Save { path: String, session: SavedSession },
    /// Read the session in the file `path` (relative to the working
    /// directory), then hand the result to `after_load`.
    Load { path: String },
    /// Answer the prompt just added to the conversation.
    RunAgent,
    /// End the session.
    Exit,
    /// Nothing to do.
    Nothing,
}

/// A message from the user.
pub open spec fn user_message(prompt: Seq<char>) -> MessageView {
    MessageView {
        role: "user"@,
        content: Some(prompt),
        tool_calls: Seq::empty(),
        tool_call_id: None,
    }
}

/// Applies one line of input to the conversation `messages` of an agent
/// working in `working_directory`, and says what the program does next.
pub fn handle_input(
    messages: &mut Vec<Message>,
    working_directory: &str,
    config: &Config,
    input: ReplInput,
) -> (a: ReplAction)
    ensures
        match input {
            ReplInput::Prompt(p) => a is RunAgent && messages_view(final(messages)@)
                == messages_view(old(messages)@).push(user_message(p@)),
            ReplInput::Command(ReplCommand::Clear) => (a matches ReplAction::Print(t) && t@
                == "Conversation cleared."@) && messages_view(final(messages)@) == seq![
                system_message(working_directory@),
            ],
            ReplInput::Command(c) => final(messages)@ == old(messages)@ && match c {
                ReplCommand::Help => a matches ReplAction::Print(t) && t@ == help_spec(),
                ReplCommand::History => a matches ReplAction::Print(t) && t@ == history_spec(
                    messages_view(old(messages)@),
                ),
                ReplCommand::Config => a matches ReplAction::Print(t) && t@ == summary_spec(
                    config@,
                ),
                ReplCommand::Save(p) => a matches ReplAction::Save { path, session } && path@
                    == session_file_spec(opt_text(p)) && session.version == SESSION_VERSION
                    && messages_view(session.messages@) == history_entries(
                    messages_view(old(messages)@),
                ),
                ReplCommand::Load(p) => a matches ReplAction::Load { path } && path@
                    == session_file_spec(opt_text(p)),
                ReplCommand::Clear => true,
            },
            ReplInput::UnknownCommand(c) => final(messages)@ == old(messages)@ && (
            a matches ReplAction::Print(t) && t@ == "Unknown command: "@ + c@
                + ". Type /help for available commands."@),
            ReplInput::Empty => final(messages)@ == old(messages)@ && a is Nothing,
            ReplInput::Exit => final(messages)@ == old(messages)@ && a is Exit,
        },
{
    match input {
        ReplInput::Prompt(prompt) => {
            let ghost p = prompt@;
            let m = Message::text("user", prompt);
            let ghost before = messages@;
            messages.push(m);
            assert(messages_view(messages@) =~= messages_view(before).push(user_message(p)));
            ReplAction::RunAgent
        },
        ReplInput::Command(ReplCommand::Help) => ReplAction::Print(String::from_str(help_text())),
        ReplInput::Command(ReplCommand::Clear) => {
            *messages = conversation_messages(working_directory);
            ReplAction::Print(String::from_str("Conversation cleared."))
        },
        ReplInput::Command(ReplCommand::History) => ReplAction::Print(
            format_history(messages.as_slice()),
        ),
        ReplInput::Command(ReplCommand::Config) => ReplAction::Print(config.summary()),
        ReplInput::Command(ReplCommand::Save(path)) => {
            let session = saved_session(messages.as_slice());
            ReplAction::Save { path: session_file(path), session }
        },
        ReplInput::Command(ReplCommand::Load(path)) => ReplAction::Load {
            path: session_file(path),
        },
        ReplInput::UnknownCommand(command) => {
            let mut t = String::from_str("Unknown command: ");
            t.append(command.as_str());
            t.append(". Type /help for available commands.");
            ReplAction::Print(t)
        },
        ReplInput::Empty => ReplAction::Nothing,
        ReplInput::Exit => ReplAction::Exit,
    }
}

/// Takes the result of reading the session file shown as `shown_path`: on
/// success the conversation becomes a fresh system prompt followed by the
/// loaded messages; on failure it is left as it was. Gives what to show.
pub fn after_load(
    messages: &mut Vec<Message>,
    working_directory: &str,
    shown_path: &str,
    loaded: Result<Vec<Message>, String>,
) -> (shown: String)
    ensures
        match loaded {
            Ok(v) => messages_view(final(messages)@) == seq![system_message(working_directory@)]
                + messages_view(v@) && shown@ == "Session loaded from "@ + shown_path@ + "."@,
            Err(e) => final(messages)@ == old(messages)@ && shown@ == "Error: "@ + e@,
        },
{
    match loaded {
        Ok(v) => {
            *messages = restore_conversation(working_directory, v);
            let mut t = String::from_str("Session loaded from ");
            t.append(shown_path);
            t.append(".");
            t
        },
        Err(e) => {
            let mut t = String::from_str("Error: ");
            t.append(e.as_str());
            t
        },
    }
}

/// What to show after writing the session file shown as `shown_path`.
pub fn after_save(shown_path: &str, saved: Result<(), String>) -> (shown: String)
    ensures
        match saved {
            Ok(()) => shown@ == "Session saved to "@ + shown_path@ + "."@,
            Err(e) => shown@ == "Error: "@ + e@,
        },
{
    match saved {
        Ok(()) => {
            let mut t = String::from_str("Session saved to ");
            t.append(shown_path);
            t.append(".");
            t
        },
        Err(e) => {
            let mut t = String::from_str("Error: ");
            t.append(e.as_str());
            t
        },
    }
}

} // verus!
