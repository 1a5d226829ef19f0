//! Saved conversations: what a session file holds, and which loaded
//! sessions are accepted.
use vstd::prelude::*;
use vstd::string::*;

use crate::message::{Message, MessageView, conversation_messages, messages_view, system_message};
use crate::repl::{history_entries, history_spec};
use crate::text::{chars_equal, chars_of, decimal, digit_char, opt_text, push_decimal};

verus! {

pub const DEFAULT_SESSION_FILE: &'static str = ".rust-terminal-agent-session.json";

pub const SESSION_VERSION: u32 = 1;

pub const MAX_SESSION_BYTES: u64 = 10 * 1024 * 1024;

/// The contents of a session file.
pub struct SavedSession {
    pub version: u32,
    pub messages: Vec<Message>,
}

/// Whether a message is the system prompt.
pub open spec fn is_system(m: MessageView) -> bool {
    m.role == "system"@
}

/// The messages of a loaded session, or why it is refused.
pub open spec fn accepted_session_spec(version: nat, messages: Seq<MessageView>) -> Result<
    Seq<MessageView>,
    Seq<char>,
> {
    if version != SESSION_VERSION {
        Err("Unsupported session version "@ + decimal(version) + " (expected 1)"@)
    } else if exists|i: int| 0 <= i < messages.len() && is_system(#[trigger] messages[i]) {
        Err("Session contains an unexpected system message"@)
    } else {
        Ok(messages)
    }
}

/// The loaded-session result as the specification reads it.
pub open spec fn loaded_result(r: Result<Vec<Message>, String>) -> Result<
    Seq<MessageView>,
    Seq<char>,
> {
    match r {
        Ok(v) => Ok(messages_view(v@)),
        Err(e) => Err(e@),
    }
}

/// The error for a session file of `len` bytes, if it is too large.
pub open spec fn size_check_spec(len: nat, action: Seq<char>) -> Result<(), Seq<char>> {
    if len > MAX_SESSION_BYTES {
        Err(
            "Session is too large to "@ + action + " (maximum "@ + decimal(
                MAX_SESSION_BYTES as nat / 1024 / 1024,
            ) + " MiB)"@,
        )
    } else {
        Ok(())
    }
}

fn size_check(len: u64, action: &str) -> (r: Result<(), String>)
    ensures
        match r {
            Ok(()) => size_check_spec(len as nat, action@) is Ok,
            Err(e) => size_check_spec(len as nat, action@) == Err::<(), Seq<char>>(e@),
        },
{
    if len > MAX_SESSION_BYTES {
        let mut e = String::from_str("Session is too large to ");
        e.append(action);
        e.append(" (maximum ");
        push_decimal(&mut e, MAX_SESSION_BYTES / 1024 / 1024);
        e.append(" MiB)");
        Err(e)
    } else {
        Ok(())
    }
}

/// Refuses to save a session whose text is `len` bytes long when that is
/// over the limit.
pub fn check_save_size(len: u64) -> (r: Result<(), String>)
    ensures
        match r {
            Ok(()) => size_check_spec(len as nat, "save"@) is Ok,
            Err(e) => size_check_spec(len as nat, "save"@) == Err::<(), Seq<char>>(e@),
        },
{
    size_check(len, "save")
}

/// Refuses to load a session file of `len` bytes when that is over the limit.
pub fn check_load_size(len: u64) -> (r: Result<(), String>)
    ensures
        match r {
            Ok(()) => size_check_spec(len as nat, "load"@) is Ok,
            Err(e) => size_check_spec(len as nat, "load"@) == Err::<(), Seq<char>>(e@),
        },
{
    size_check(len, "load")
}

/// What a session file records of a conversation: the current version and
/// every message but the system prompt, in order.
pub fn saved_session(messages: &[Message]) -> (s: SavedSession)
    ensures
        s.version == SESSION_VERSION,
        messages_view(s.messages@) == history_entries(messages_view(messages@)),
{
    let ghost views = messages_view(messages@);
    let ghost pred = |m: MessageView| m.role != "system"@;
    let mut kept: Vec<Message> = Vec::new();
    let mut i: usize = 0;
    while i < messages.len()
        invariant
            i <= messages@.len(),
            views == messages_view(messages@),
            pred == (|m: MessageView| m.role != "system"@),
            messages_view(kept@) == views.take(i as int).filter(pred),
        decreases messages@.len() - i,
    {
        proof {
            assert(views.take(i + 1).drop_last() == views.take(i as int));
            assert(views.take(i + 1).last() == messages@[i as int]@);
            reveal_with_fuel(Seq::<_>::filter, 1);
        }
        let is_system_message = chars_equal(
            &chars_of(messages[i].role.as_str()),
            &chars_of("system"),
        );
        if !is_system_message {
            let copy = messages[i].duplicate();
            kept.push(copy);
            assert(messages_view(kept@) =~= views.take(i as int).filter(pred).push(
                views[i as int],
            ));
        }
        i = i + 1;
    }
    assert(views.take(messages@.len() as int) == views);
    SavedSession { version: SESSION_VERSION, messages: kept }
}

/// The messages of a loaded session: refused when its version is not the
/// current one or when it holds a system prompt.
pub fn accept_loaded_session(session: SavedSession) -> (r: Result<Vec<Message>, String>)
    ensures
        loaded_result(r) == accepted_session_spec(
            session.version as nat,
            messages_view(session.messages@),
        ),
{
    let ghost views = messages_view(session.messages@);
    if session.version != SESSION_VERSION {
        let mut e = String::from_str("Unsupported session version ");
        push_decimal(&mut e, session.version as u64);
        e.append(" (expected 1)");
        return Err(e);
    }
    let mut i: usize = 0;
    while i < session.messages.len()
        invariant
            i <= session.messages@.len(),
            views == messages_view(session.messages@),
            session.version == SESSION_VERSION,
            forall|k: int| 0 <= k < i ==> !is_system(#[trigger] views[k]),
        decreases session.messages@.len() - i,
    {
        if chars_equal(&chars_of(session.messages[i].role.as_str()), &chars_of("system")) {
            assert(views[i as int] == session.messages@[i as int]@);
            assert(is_system(views[i as int]));

            return Err(String::from_str("Session contains an unexpected system message"));
        }
        i = i + 1;
    }
    Ok(session.messages)
}

/// The name of the session file: the one given, else the default name.
pub open spec fn session_file_spec(path: Option<Seq<char>>) -> Seq<char> {
    match path {
        Some(p) => p,
        None => DEFAULT_SESSION_FILE@,
    }
}

/// The name of the session file: the one given, else the default name.
pub fn session_file(path: Option<String>) -> (r: String)
    ensures
        r@ == session_file_spec(opt_text(path)),
{
    match path {
        Some(p) => p,
        None => String::from_str(DEFAULT_SESSION_FILE),
    }
}

/// The conversation after loading: a fresh system prompt for
/// `working_directory`, followed by the loaded messages.
pub fn restore_conversation(working_directory: &str, loaded: Vec<Message>) -> (v: Vec<Message>)
    ensures
        messages_view(v@) == seq![system_message(working_directory@)] + messages_view(loaded@),
{
    let mut v = conversation_messages(working_directory);
    let mut loaded = loaded;
    let ghost before = v@;
    let ghost added = loaded@;
    v.append(&mut loaded);
    assert(v@ == before + added);
    assert(messages_view(before + added) =~= messages_view(before) + messages_view(added));
    v
}

/// Loading gives back what saving kept: a session made from a
/// conversation is accepted, and its messages are the conversation's
/// messages without the system prompt.
pub proof fn lemma_save_load_round_trip(messages: Seq<MessageView>)
    ensures
        accepted_session_spec(SESSION_VERSION as nat, history_entries(messages)) == Ok::<
            Seq<MessageView>,
            Seq<char>,
        >(history_entries(messages)),
{
    let kept = history_entries(messages);
    let pred = |m: MessageView| m.role != "system"@;
    assert forall|i: int| 0 <= i < kept.len() implies !is_system(#[trigger] kept[i]) by {
        messages.lemma_filter_pred(pred, i);
    }
}

/// A new conversation, or one just cleared, has no history entries.
pub proof fn lemma_fresh_conversation_has_no_history(working_directory: Seq<char>)
    ensures
        history_spec(seq![system_message(working_directory)]) == "No conversation history."@,
{
    let s = seq![system_message(working_directory)];
    let pred = |m: MessageView| m.role != "system"@;
    reveal_with_fuel(Seq::<_>::filter, 2);
    assert(s.drop_last() =~= Seq::<MessageView>::empty());
    assert(history_entries(s) =~= Seq::<MessageView>::empty());
}

/// Restoring a loaded session shows exactly the loaded messages in the
/// history.
pub proof fn lemma_restored_history(working_directory: Seq<char>, loaded: Seq<MessageView>)
    ensures
        history_spec(seq![system_message(working_directory)] + loaded) == history_spec(loaded),
{
    let pred = |m: MessageView| m.role != "system"@;
    let head = seq![system_message(working_directory)];
    Seq::filter_distributes_over_add(head, loaded, pred);
    reveal_with_fuel(Seq::<_>::filter, 2);
    assert(head.drop_last() =~= Seq::<MessageView>::empty());
    assert(head.filter(pred) =~= Seq::<MessageView>::empty());
    assert(history_entries(head + loaded) =~= history_entries(loaded));
}

/// What loading a session file of `len` bytes gives, where `parsed` is
/// what reading and parsing the file gave (its version and messages, or
/// why it could not be read): a file over the size limit is refused before
/// it is read; otherwise a parsed session is accepted or refused by its
/// version and its messages.
pub open spec fn load_spec(len: nat, parsed: Result<(nat, Seq<MessageView>), Seq<char>>) -> Result<
    Seq<MessageView>,
    Seq<char>,
> {
    match size_check_spec(len, "load"@) {
        Err(e) => Err(e),
        Ok(_) => match parsed {
            Err(e) => Err(e),
            Ok((version, messages)) => accepted_session_spec(version, messages),
        },
    }
}

/// A session file over 10 MiB is refused with the size-limit error; a
/// loaded session came from a file of at most 10 MiB holding version 1 and
/// exactly the loaded messages, none of them a system message; and such a
/// file is always loaded.
pub proof fn lemma_loaded_sessions_are_checked(
    len: nat,
    parsed: Result<(nat, Seq<MessageView>), Seq<char>>,
)
    ensures
        len > MAX_SESSION_BYTES ==> load_spec(len, parsed) == Err::<Seq<MessageView>, Seq<char>>(
            "Session is too large to load (maximum 10 MiB)"@,
        ),
        load_spec(len, parsed) matches Ok(loaded) ==> {
            &&& len <= MAX_SESSION_BYTES
            &&& parsed == Ok::<(nat, Seq<MessageView>), Seq<char>>((SESSION_VERSION as nat, loaded))
            &&& forall|i: int| 0 <= i < loaded.len() ==> #[trigger] loaded[i].role != "system"@
        },
        parsed matches Ok((version, messages)) ==> ((len <= MAX_SESSION_BYTES && version
            == SESSION_VERSION && forall|i: int|
            0 <= i < messages.len() ==> #[trigger] messages[i].role != "system"@) ==> load_spec(
            len,
            parsed,
        ) == Ok::<Seq<MessageView>, Seq<char>>(messages)),
{
    reveal_strlit("Session is too large to load (maximum 10 MiB)");
    reveal_strlit("Session is too large to ");
    reveal_strlit("load");
    reveal_strlit(" (maximum ");
    reveal_strlit(" MiB)");
    assert(decimal(10) =~= seq!['1', '0']) by {
        assert(decimal(1) == seq![digit_char(1)]);
        assert(digit_char(1) == '1');
        assert(digit_char(0) == '0');
    }
    assert("Session is too large to "@ + "load"@ + " (maximum "@ + decimal(10) + " MiB)"@
        =~= "Session is too large to load (maximum 10 MiB)"@);
    if let Ok((version, messages)) = parsed {
        if len <= MAX_SESSION_BYTES && version == SESSION_VERSION {
            if exists|i: int| 0 <= i < messages.len() && is_system(#[trigger] messages[i]) {
                let i = choose|i: int| 0 <= i < messages.len() && is_system(#[trigger] messages[i]);
                assert(messages[i].role == "system"@);
            }
        }
    }
}

} // verus!
