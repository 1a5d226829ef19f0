//! The conversation commands the user can type, and the history listing.
use vstd::prelude::*;
use vstd::string::*;

use crate::message::{Message, MessageView, ToolCallView, messages_view};
use crate::text::{
    ascii_lower, ascii_lowercase, chars_equal, chars_of, decimal, digit_char, is_whitespace, is_whitespace_char, join,
    lemma_trimmed_idempotent, lemma_trimmed_is_the_inner_text, opt_text, push_all, push_decimal, push_range, string_of, to_ascii_lowercase, trim,
    trimmed,
};

verus! {

pub const HISTORY_PREVIEW_CHARS: usize = 200;

pub const HISTORY_MAX_ENTRIES: usize = 20;

/// A command that acts on the conversation rather than asking the model.
#[derive(Debug, PartialEq)]
pub enum ReplCommand {
    Help,
    Clear,
    History,
    Config,
    Save(Option<String>),
    Load(Option<String>),
}

/// What one line of user input asks for.
#[derive(Debug, PartialEq)]
pub enum ReplInput {
    Prompt(String),
    Command(ReplCommand),
    UnknownCommand(String),
    Empty,
    Exit,
}

pub enum ReplCommandView {
    Help,
    Clear,
    History,
    Config,
    Save(Option<Seq<char>>),
    Load(Option<Seq<char>>),
}

pub enum ReplInputView {
    Prompt(Seq<char>),
    Command(ReplCommandView),
    UnknownCommand(Seq<char>),
    Empty,
    Exit,
}

impl View for ReplCommand {
    type V = ReplCommandView;

    open spec fn view(&self) -> ReplCommandView {
        match self {
            ReplCommand::Help => ReplCommandView::Help,
            ReplCommand::Clear => ReplCommandView::Clear,
            ReplCommand::History => ReplCommandView::History,
            ReplCommand::Config => ReplCommandView::Config,
            ReplCommand::Save(p) => ReplCommandView::Save(opt_text(*p)),
            ReplCommand::Load(p) => ReplCommandView::Load(opt_text(*p)),
        }
    }
}

impl View for ReplInput {
    type V = ReplInputView;

    open spec fn view(&self) -> ReplInputView {
        match self {
            ReplInput::Prompt(p) => ReplInputView::Prompt(p@),
            ReplInput::Command(c) => ReplInputView::Command(c@),
            ReplInput::UnknownCommand(c) => ReplInputView::UnknownCommand(c@),
            ReplInput::Empty => ReplInputView::Empty,
            ReplInput::Exit => ReplInputView::Exit,
        }
    }
}

// ---------------------------------------------------------------- classifying

/// Equality up to ASCII case (`str::eq_ignore_ascii_case`).
pub open spec fn eq_ignore_ascii_case(a: Seq<char>, b: Seq<char>) -> bool {
    ascii_lowercase(a) == ascii_lowercase(b)
}

/// The words that end the session.
pub open spec fn is_exit_word(t: Seq<char>) -> bool {
    ||| eq_ignore_ascii_case(t, "exit"@)
    ||| eq_ignore_ascii_case(t, "quit"@)
    ||| eq_ignore_ascii_case(t, "/exit"@)
    ||| eq_ignore_ascii_case(t, "/quit"@)
}

/// The index of the first whitespace character of `s`, or its length.
pub open spec fn first_whitespace(s: Seq<char>) -> nat
    decreases s.len(),
{
    if s.len() == 0 {
        0
    } else if is_whitespace(s[0]) {
        0
    } else {
        1 + first_whitespace(s.drop_first())
    }
}

/// The argument that follows a command word, when there is one.
pub open spec fn command_argument(t: Seq<char>) -> Option<Seq<char>> {
    let rest = trimmed(t.skip(first_whitespace(t) as int));
    if rest.len() == 0 {
        None
    } else {
        Some(rest)
    }
}

/// What a line of input asks for.
pub open spec fn classify_spec(input: Seq<char>) -> ReplInputView {
    let t = trimmed(input);
    let word = ascii_lowercase(t.take(first_whitespace(t) as int));
    if t.len() == 0 {
        ReplInputView::Empty
    } else if is_exit_word(t) {
        ReplInputView::Exit
    } else if word == "/help"@ {
        ReplInputView::Command(ReplCommandView::Help)
    } else if word == "/clear"@ {
        ReplInputView::Command(ReplCommandView::Clear)
    } else if word == "/history"@ {
        ReplInputView::Command(ReplCommandView::History)
    } else if word == "/config"@ {
        ReplInputView::Command(ReplCommandView::Config)
    } else if word == "/save"@ {
        ReplInputView::Command(ReplCommandView::Save(command_argument(t)))
    } else if word == "/load"@ {
        ReplInputView::Command(ReplCommandView::Load(command_argument(t)))
    } else if t[0] == '/' {
        ReplInputView::UnknownCommand(t)
    } else {
        ReplInputView::Prompt(t)
    }
}

fn same_ignoring_case(lowered: &Vec<char>, word: &str) -> (r: bool)
    ensures
        r == (lowered@ == ascii_lowercase(word@)),
{
    let w = to_ascii_lowercase(&chars_of(word));
    chars_equal(lowered, &w)
}

proof fn lemma_first_whitespace(s: Seq<char>, i: int)
    requires
        0 <= i <= s.len(),
        forall|k: int| 0 <= k < i ==> !is_whitespace(#[trigger] s[k]),
        i == s.len() || is_whitespace(s[i]),
    ensures
        first_whitespace(s) == i,
    decreases i,
{
    if i > 0 {
        let t = s.drop_first();
        assert forall|k: int| 0 <= k < i - 1 implies !is_whitespace(#[trigger] t[k]) by {
            assert(t[k] == s[k + 1]);
        }
        if i < s.len() {
            assert(t[i - 1] == s[i]);
        }
        assert(!is_whitespace(s[0]));
        lemma_first_whitespace(t, i - 1);
    }
}

/// Classifies one line of user input.
pub fn classify_input(input: &str) -> (r: ReplInput)
    ensures
        r@ == classify_spec(input@),
{
    let t = trim(&chars_of(input));
    if t.len() == 0 {
        return ReplInput::Empty;
    }
    let lowered = to_ascii_lowercase(&t);
    if same_ignoring_case(&lowered, "exit") || same_ignoring_case(&lowered, "quit")
        || same_ignoring_case(&lowered, "/exit") || same_ignoring_case(&lowered, "/quit") {
        return ReplInput::Exit;
    }
    let mut end: usize = 0;
    while end < t.len() && !is_whitespace_char(t[end])
        invariant
            end <= t@.len(),
            forall|k: int| 0 <= k < end ==> !is_whitespace(#[trigger] t@[k]),
        decreases t@.len() - end,
    {
        end = end + 1;
    }
    proof {
        lemma_first_whitespace(t@, end as int);
    }
    let mut word: Vec<char> = Vec::new();
    let mut rest: Vec<char> = Vec::new();
    let mut k: usize = 0;
    while k < t.len()
        invariant
            end <= t@.len(),
            k <= t@.len(),
            word@ == t@.take(if k < end { k as int } else { end as int }),
            rest@ == t@.subrange(end as int, if k < end { end as int } else { k as int }),
        decreases t@.len() - k,
    {
        if k < end {
            word.push(t[k]);
            assert(t@.take(k + 1) == t@.take(k as int).push(t@[k as int]));
        } else {
            rest.push(t[k]);
            assert(t@.subrange(end as int, k + 1) == t@.subrange(end as int, k as int).push(
                t@[k as int],
            ));
        }
        k = k + 1;
    }
    assert(rest@ == t@.skip(end as int));
    let word = to_ascii_lowercase(&word);
    let argument_chars = trim(&rest);
    let argument: Option<String> = if argument_chars.len() == 0 {
        None
    } else {
        Some(string_of(&argument_chars))
    };
    assert(opt_text(argument) == command_argument(t@));
    if chars_equal(&word, &chars_of("/help")) {
        return ReplInput::Command(ReplCommand::Help);
    }
    if chars_equal(&word, &chars_of("/clear")) {
        return ReplInput::Command(ReplCommand::Clear);
    }
    if chars_equal(&word, &chars_of("/history")) {
        return ReplInput::Command(ReplCommand::History);
    }
    if chars_equal(&word, &chars_of("/config")) {
        return ReplInput::Command(ReplCommand::Config);
    }
    if chars_equal(&word, &chars_of("/save")) {
        return ReplInput::Command(ReplCommand::Save(argument));
    }
    if chars_equal(&word, &chars_of("/load")) {
        return ReplInput::Command(ReplCommand::Load(argument));
    }
    if t[0] == '/' {
        return ReplInput::UnknownCommand(string_of(&t));
    }
    ReplInput::Prompt(string_of(&t))
}

pub open spec fn help_spec() -> Seq<char> {
    "Commands:\n  /help         Show available commands\n  /clear        Start a new conversation\n  /history      Show this conversation\n  /config       Show active configuration\n  /save [path]  Save this conversation\n  /load [path]  Load a saved conversation\n  /exit         Exit the agent"@
}

/// The list of conversation commands.
pub fn help_text() -> (s: &'static str)
    ensures
        s@ == help_spec(),
{
    "Commands:\n  /help         Show available commands\n  /clear        Start a new conversation\n  /history      Show this conversation\n  /config       Show active configuration\n  /save [path]  Save this conversation\n  /load [path]  Load a saved conversation\n  /exit         Exit the agent"
}

// ---------------------------------------------------------------- history

/// The messages that the history lists: all but the system prompt.
pub open spec fn history_entries(messages: Seq<MessageView>) -> Seq<MessageView> {
    messages.filter(|m: MessageView| m.role != "system"@)
}

/// How an entry names who spoke.
pub open spec fn role_label(m: MessageView) -> Seq<char> {
    if m.role == "user"@ {
        "User"@
    } else if m.role == "assistant"@ {
        "Assistant"@
    } else if m.role == "tool"@ {
        match m.tool_call_id {
            None => "Tool"@,
            Some(id) => "Tool ("@ + id + ")"@,
        }
    } else {
        m.role
    }
}

/// `s` with each line break (`\r\n`, `\r` or `\n`) shown as ` ↩ `.
pub open spec fn mark_line_breaks(s: Seq<char>) -> Seq<char>
    decreases s.len(),
{
    if s.len() == 0 {
        Seq::empty()
    } else if s.len() > 1 && s[0] == '\r' && s[1] == '\n' {
        " ↩ "@ + mark_line_breaks(s.skip(2))
    } else if s[0] == '\r' || s[0] == '\n' {
        " ↩ "@ + mark_line_breaks(s.skip(1))
    } else {
        seq![s[0]] + mark_line_breaks(s.skip(1))
    }
}

/// `s` on one line, cut to its first 200 characters followed by `...`
/// when longer.
pub open spec fn single_line_spec(s: Seq<char>) -> Seq<char> {
    let marked = mark_line_breaks(s);
    if marked.len() > HISTORY_PREVIEW_CHARS {
        marked.take(HISTORY_PREVIEW_CHARS as int) + "..."@
    } else {
        marked
    }
}

/// The text of one tool call in a preview.
pub open spec fn tool_call_text(c: ToolCallView) -> Seq<char> {
    "tool call "@ + c.name + " "@ + c.arguments
}

/// The pieces of a message that its preview shows: its content when not
/// empty, then each tool call.
pub open spec fn preview_parts(m: MessageView) -> Seq<Seq<char>> {
    let content = match m.content {
        Some(c) => if c.len() > 0 {
            seq![c]
        } else {
            Seq::empty()
        },
        None => Seq::empty(),
    };
    content + m.tool_calls.map_values(|c: ToolCallView| tool_call_text(c))
}

/// The one-line preview of a message.
pub open spec fn preview_spec(m: MessageView) -> Seq<char> {
    let parts = preview_parts(m);
    single_line_spec(
        if parts.len() == 0 {
            "(empty)"@
        } else {
            join(parts, " | "@)
        },
    )
}

/// The history line of the message numbered `number`.
pub open spec fn entry_line(number: nat, m: MessageView) -> Seq<char> {
    decimal(number) + ". "@ + role_label(m) + ": "@ + preview_spec(m)
}

/// How many of the first entries the history leaves out.
pub open spec fn skipped_entries(count: nat) -> nat {
    if count > HISTORY_MAX_ENTRIES {
        (count - HISTORY_MAX_ENTRIES) as nat
    } else {
        0
    }
}

/// The lines of the last 20 entries, numbered from 1 over all entries.
pub open spec fn history_lines(entries: Seq<MessageView>) -> Seq<Seq<char>> {
    let skipped = skipped_entries(entries.len());
    Seq::new(
        (entries.len() - skipped) as nat,
        |k: int| entry_line((k + skipped + 1) as nat, entries[k + skipped]),
    )
}

/// The text that `/history` prints.
pub open spec fn history_spec(messages: Seq<MessageView>) -> Seq<char> {
    let entries = history_entries(messages);
    let count = entries.len();
    if count == 0 {
        "No conversation history."@
    } else {
        history_heading(count) + "\n"@ + join(history_lines(entries), "\n"@)
    }
}

/// The first line of the history of `count` entries.
pub open spec fn history_heading(count: nat) -> Seq<char> {
    if skipped_entries(count) == 0 {
        "Conversation history:"@
    } else {
        "Conversation history (last 20 of "@ + decimal(count) + " entries):"@
    }
}

proof fn lemma_join_step(parts: Seq<Seq<char>>, sep: Seq<char>, k: int)
    requires
        0 <= k < parts.len(),
    ensures
        join(parts.take(k + 1), sep) == if k == 0 {
            parts[0]
        } else {
            join(parts.take(k), sep) + sep + parts[k]
        },
{
    let p = parts.take(k + 1);
    assert(p.drop_last() == parts.take(k));
    assert(p.last() == parts[k]);
    if k == 0 {
        assert(p.len() == 1);
    }
}

/// Appends the parts `parts[0..n]`, separated by `sep`, one at a time.
proof fn lemma_join_all(parts: Seq<Seq<char>>, sep: Seq<char>)
    ensures
        join(parts.take(parts.len() as int), sep) == join(parts, sep),
{
    assert(parts.take(parts.len() as int) == parts);
}

fn push_mark(out: &mut Vec<char>)
    ensures
        final(out)@ == old(out)@ + " ↩ "@,
{
    let m = chars_of(" ↩ ");
    let mut i: usize = 0;
    while i < m.len()
        invariant
            i <= m@.len(),
            m@ == " ↩ "@,
            out@ == old(out)@ + m@.take(i as int),
        decreases m@.len() - i,
    {
        out.push(m[i]);
        assert(m@.take(i + 1) == m@.take(i as int).push(m@[i as int]));
        i = i + 1;
    }
    assert(m@.take(m@.len() as int) == m@);
}

/// `content` on one line, cut to its first 200 characters.
pub fn single_line_preview(content: &str) -> (s: String)
    ensures
        s@ == single_line_spec(content@),
{
    let v = chars_of(content);
    let mut marked: Vec<char> = Vec::new();
    let mut i: usize = 0;
    assert(v@.skip(0) == v@);
    while i < v.len()
        invariant
            i <= v@.len(),
            mark_line_breaks(v@) == marked@ + mark_line_breaks(v@.skip(i as int)),
        decreases v@.len() - i,
    {
        let ghost rest = v@.skip(i as int);
        if v[i] == '\r' && i + 1 < v.len() && v[i + 1] == '\n' {
            push_mark(&mut marked);
            assert(rest.skip(2) == v@.skip(i + 2));
            i = i + 2;
        } else if v[i] == '\r' || v[i] == '\n' {
            push_mark(&mut marked);
            assert(rest.skip(1) == v@.skip(i + 1));
            i = i + 1;
        } else {
            marked.push(v[i]);
            assert(rest.skip(1) == v@.skip(i + 1));
            i = i + 1;
        }
    }
    assert(v@.skip(v@.len() as int) =~= Seq::<char>::empty());
    let mut s = String::new();
    if marked.len() > HISTORY_PREVIEW_CHARS {
        push_range(&mut s, &marked, 0, HISTORY_PREVIEW_CHARS);
        s.append("...");
        assert(marked@.subrange(0, HISTORY_PREVIEW_CHARS as int) == marked@.take(
            HISTORY_PREVIEW_CHARS as int,
        ));
    } else {
        push_all(&mut s, &marked);
    }
    s
}

/// The one-line preview of a message: its text and tool calls.
pub fn message_preview(message: &Message) -> (s: String)
    ensures
        s@ == preview_spec(message@),
{
    let ghost parts = preview_parts(message@);
    let mut content = String::new();
    let mut count: usize = 0;
    let has_text = match &message.content {
        Some(c) => c.as_str().unicode_len() > 0,
        None => false,
    };
    let ghost head: Seq<Seq<char>> = if has_text {
        seq![message.content.unwrap()@]
    } else {
        Seq::empty()
    };
    assert(parts == head + message@.tool_calls.map_values(|c: ToolCallView| tool_call_text(c)));
    if has_text {
        match &message.content {
            Some(c) => content.append(c.as_str()),
            None => {},
        }
        count = 1;
        proof {
            lemma_join_step(parts, " | "@, 0);
        }
    }
    let mut j: usize = 0;
    while j < message.tool_calls.len()
        invariant
            parts == head + message@.tool_calls.map_values(|c: ToolCallView| tool_call_text(c)),
            head.len() == count,
            count <= 1,
            j <= message.tool_calls@.len(),
            message@.tool_calls.len() == message.tool_calls@.len(),
            content@ == join(parts.take(count + j), " | "@),
        decreases message.tool_calls@.len() - j,
    {
        let call = &message.tool_calls[j];
        proof {
            assert(message@.tool_calls[j as int] == call@);
            assert(parts[count + j] == tool_call_text(call@));
            lemma_join_step(parts, " | "@, count + j);
        }
        if count + j > 0 {
            content.append(" | ");
        }
        content.append("tool call ");
        content.append(call.function.name.as_str());
        content.append(" ");
        content.append(call.function.arguments.as_str());
        j = j + 1;
    }
    proof {
        lemma_join_all(parts, " | "@);
    }
    if count == 0 && j == 0 {
        content.append("(empty)");
    }
    single_line_preview(content.as_str())
}

/// Whether the role of `m` is the given text.
fn role_is(m: &Message, role: &str) -> (r: bool)
    ensures
        r == (m@.role == role@),
{
    chars_equal(&chars_of(m.role.as_str()), &chars_of(role))
}

fn push_label(out: &mut String, m: &Message)
    ensures
        final(out)@ == old(out)@ + role_label(m@),
{
    if role_is(m, "user") {
        out.append("User");
    } else if role_is(m, "assistant") {
        out.append("Assistant");
    } else if role_is(m, "tool") {
        match &m.tool_call_id {
            None => out.append("Tool"),
            Some(id) => {
                out.append("Tool (");
                out.append(id.as_str());
                out.append(")");
            },
        }
    } else {
        out.append(m.role.as_str());
    }
}

fn push_entry_line(out: &mut String, number: u64, m: &Message)
    ensures
        final(out)@ == old(out)@ + entry_line(number as nat, m@),
{
    push_decimal(out, number);
    out.append(". ");
    push_label(out, m);
    out.append(": ");
    let preview = message_preview(m);
    out.append(preview.as_str());
}

/// The conversation so far: the last 20 of its entries, numbered and
/// previewed, without the system prompt.
pub fn format_history(messages: &[Message]) -> (s: String)
    ensures
        s@ == history_spec(messages_view(messages@)),
{
    let ghost views = messages_view(messages@);
    let ghost pred = |m: MessageView| m.role != "system"@;
    let mut entries: Vec<usize> = Vec::new();
    let mut i: usize = 0;
    while i < messages.len()
        invariant
            i <= messages@.len(),
            views == messages_view(messages@),
            pred == (|m: MessageView| m.role != "system"@),
            forall|k: int| 0 <= k < entries@.len() ==> #[trigger] entries@[k] < messages@.len(),
            entries@.map_values(|j: usize| views[j as int]) == views.take(i as int).filter(pred),
        decreases messages@.len() - i,
    {
        proof {
            assert(views.take(i + 1).drop_last() == views.take(i as int));
            assert(views.take(i + 1).last() == messages@[i as int]@);
            reveal_with_fuel(Seq::<_>::filter, 1);
        }
        if !role_is(&messages[i], "system") {
            entries.push(i);
            assert(entries@.map_values(|j: usize| views[j as int]) =~= views.take(i as int).filter(
                pred,
            ).push(views[i as int]));
        }
        i = i + 1;
    }
    assert(views.take(messages@.len() as int) == views);
    let ghost all = history_entries(views);
    assert(all == entries@.map_values(|j: usize| views[j as int]));
    let count = entries.len();
    if count == 0 {
        return String::from_str("No conversation history.");
    }
    let skipped: usize = if count > HISTORY_MAX_ENTRIES {
        count - HISTORY_MAX_ENTRIES
    } else {
        0
    };
    let mut s = if skipped == 0 {
        String::from_str("Conversation history:")
    } else {
        let mut h = String::from_str("Conversation history (last 20 of ");
        push_decimal(&mut h, count as u64);
        h.append(" entries):");
        h
    };
    s.append("\n");
    let ghost prefix = s@;
    let ghost lines = history_lines(all);
    let mut k = skipped;
    while k < count
        invariant
            skipped <= k <= count,
            count == entries@.len(),
            count == all.len(),
            skipped == skipped_entries(count as nat),
            lines == history_lines(all),
            all == entries@.map_values(|j: usize| views[j as int]),
            views == messages_view(messages@),
            forall|t: int| 0 <= t < entries@.len() ==> #[trigger] entries@[t] < messages@.len(),
            s@ == prefix + join(lines.take(k - skipped), "\n"@),
        decreases count - k,
    {
        let m = &messages[entries[k]];
        proof {
            assert(all[k as int] == views[entries@[k as int] as int]);
            assert(views[entries@[k as int] as int] == m@);
            assert(lines[k - skipped] == entry_line((k + 1) as nat, m@));
            lemma_join_step(lines, "\n"@, k - skipped);
        }
        if k > skipped {
            s.append("\n");
        }
        push_entry_line(&mut s, (k + 1) as u64, m);
        k = k + 1;
    }
    proof {
        lemma_join_all(lines, "\n"@);
    }
    s
}

/// Whitespace around a line never changes what it asks for.
pub proof fn lemma_surrounding_whitespace_is_ignored(input: Seq<char>)
    ensures
        classify_spec(trimmed(input)) == classify_spec(input),
{
    lemma_trimmed_idempotent(input);
}

/// The history never shows the system prompt: no listed entry has the
/// system role.
pub proof fn lemma_history_omits_system_prompt(messages: Seq<MessageView>)
    ensures
        forall|i: int|
            0 <= i < history_entries(messages).len() ==> #[trigger] history_entries(
                messages,
            )[i].role != "system"@,
{
    let pred = |m: MessageView| m.role != "system"@;
    assert forall|i: int| 0 <= i < history_entries(messages).len() implies #[trigger] history_entries(
        messages,
    )[i].role != "system"@ by {
        messages.lemma_filter_pred(pred, i);
    }
}

/// The history lists the last 20 entries at most, ending with the latest.
pub proof fn lemma_history_lists_at_most_twenty(messages: Seq<MessageView>)
    ensures
        history_lines(history_entries(messages)).len() == if history_entries(messages).len()
            > HISTORY_MAX_ENTRIES {
            HISTORY_MAX_ENTRIES as nat
        } else {
            history_entries(messages).len()
        },
        history_entries(messages).len() > 0 ==> history_lines(history_entries(messages)).last()
            == entry_line(
            history_entries(messages).len(),
            history_entries(messages).last(),
        ),
{
}

/// No line break survives in marked text.
proof fn lemma_marked_has_no_breaks(s: Seq<char>)
    ensures
        forall|i: int|
            0 <= i < mark_line_breaks(s).len() ==> #[trigger] mark_line_breaks(s)[i] != '\n'
                && mark_line_breaks(s)[i] != '\r',
    decreases s.len(),
{
    reveal_strlit(" ↩ ");
    if s.len() == 0 {
    } else if s.len() > 1 && s[0] == '\r' && s[1] == '\n' {
        lemma_marked_has_no_breaks(s.skip(2));
        let r = mark_line_breaks(s.skip(2));
        assert forall|i: int| 0 <= i < mark_line_breaks(s).len() implies #[trigger] mark_line_breaks(s)[i] != '\n'
            && mark_line_breaks(s)[i] != '\r' by {
            if i >= 3 {
                assert(mark_line_breaks(s)[i] == r[i - 3]);
            }
        }
    } else if s[0] == '\r' || s[0] == '\n' {
        lemma_marked_has_no_breaks(s.skip(1));
        let r = mark_line_breaks(s.skip(1));
        assert forall|i: int| 0 <= i < mark_line_breaks(s).len() implies #[trigger] mark_line_breaks(s)[i] != '\n'
            && mark_line_breaks(s)[i] != '\r' by {
            if i >= 3 {
                assert(mark_line_breaks(s)[i] == r[i - 3]);
            }
        }
    } else {
        lemma_marked_has_no_breaks(s.skip(1));
        let r = mark_line_breaks(s.skip(1));
        assert forall|i: int| 0 <= i < mark_line_breaks(s).len() implies #[trigger] mark_line_breaks(s)[i] != '\n'
            && mark_line_breaks(s)[i] != '\r' by {
            if i >= 1 {
                assert(mark_line_breaks(s)[i] == r[i - 1]);
            }
        }
    }
}

/// A preview is a single line of at most 203 characters: it holds no line
/// break.
pub proof fn lemma_preview_is_one_short_line(s: Seq<char>)
    ensures
        single_line_spec(s).len() <= HISTORY_PREVIEW_CHARS + 3,
        forall|i: int|
            0 <= i < single_line_spec(s).len() ==> #[trigger] single_line_spec(s)[i] != '\n'
                && single_line_spec(s)[i] != '\r',
{
    reveal_strlit("...");
    lemma_marked_has_no_breaks(s);
    let m = mark_line_breaks(s);
    if m.len() > HISTORY_PREVIEW_CHARS {
        assert forall|i: int| 0 <= i < single_line_spec(s).len() implies #[trigger] single_line_spec(s)[i] != '\n'
            && single_line_spec(s)[i] != '\r' by {
            if i < HISTORY_PREVIEW_CHARS {
                assert(single_line_spec(s)[i] == m[i]);
            }
        }
    }
}

/// Whether `s` holds no line break.
pub open spec fn no_breaks(s: Seq<char>) -> bool {
    forall|i: int| 0 <= i < s.len() ==> #[trigger] s[i] != '\n' && s[i] != '\r'
}

proof fn lemma_no_breaks_concat(a: Seq<char>, b: Seq<char>)
    requires
        no_breaks(a),
        no_breaks(b),
    ensures
        no_breaks(a + b),
{
    assert forall|i: int| 0 <= i < (a + b).len() implies #[trigger] (a + b)[i] != '\n' && (a
        + b)[i] != '\r' by {
        if i < a.len() {
            assert((a + b)[i] == a[i]);
        } else {
            assert((a + b)[i] == b[i - a.len()]);
        }
    }
}

proof fn lemma_decimal_no_breaks(n: nat)
    ensures
        no_breaks(decimal(n)),
    decreases n,
{
    if n >= 10 {
        lemma_decimal_no_breaks(n / 10);
        let d = decimal(n / 10);
        assert(decimal(n) == d.push(digit_char(n % 10)));
        assert forall|i: int| 0 <= i < decimal(n).len() implies #[trigger] decimal(n)[i] != '\n'
            && decimal(n)[i] != '\r' by {
            if i < d.len() {
                assert(decimal(n)[i] == d[i]);
            }
        }
    }
}

proof fn lemma_join_prepend(h: Seq<char>, parts: Seq<Seq<char>>, sep: Seq<char>)
    requires
        parts.len() > 0,
    ensures
        join(seq![h] + parts, sep) == h + sep + join(parts, sep),
    decreases parts.len(),
{
    let all = seq![h] + parts;
    assert(all.drop_last() =~= seq![h] + parts.drop_last());
    assert(all.last() == parts.last());
    if parts.len() == 1 {
        assert(seq![h] + parts.drop_last() =~= seq![h]);
        assert(join(seq![h], sep) == h);
        assert(join(parts, sep) == parts[0]);
    } else {
        lemma_join_prepend(h, parts.drop_last(), sep);
        assert(join(all, sep) =~= h + sep + join(parts, sep));
    }
}

/// Read line by line, the history is its heading followed by one line per
/// listed entry, in order, numbered by the entry's place among all entries;
/// no line holds a break of its own, so splitting the text at its newlines
/// gives exactly these lines. (Roles and call ids are taken to hold no line
/// break, since they are shown as they are.)
pub proof fn lemma_history_is_one_line_per_entry(messages: Seq<MessageView>)
    requires
        forall|i: int|
            0 <= i < messages.len() ==> no_breaks(#[trigger] messages[i].role) && (
            messages[i].tool_call_id matches Some(id) ==> no_breaks(id)),
    ensures
        history_entries(messages).len() > 0 ==> {
            let lines = seq![history_heading(history_entries(messages).len())] + history_lines(
                history_entries(messages),
            );
            &&& history_spec(messages) == join(lines, "\n"@)
            &&& forall|j: int| 0 <= j < lines.len() ==> no_breaks(#[trigger] lines[j])
        },
{
    let entries = history_entries(messages);
    let count = entries.len();
    if count > 0 {
        let pred = |m: MessageView| m.role != "system"@;
        let lines = history_lines(entries);
        let heading = history_heading(count);
        lemma_join_prepend(heading, lines, "\n"@);
        reveal_strlit("Conversation history:");
        reveal_strlit("Conversation history (last 20 of ");
        reveal_strlit(" entries):");
        reveal_strlit(". ");
        reveal_strlit(": ");
        reveal_strlit("User");
        reveal_strlit("Assistant");
        reveal_strlit("Tool");
        reveal_strlit("Tool (");
        reveal_strlit(")");
        lemma_decimal_no_breaks(count);
        if skipped_entries(count) != 0 {
            lemma_no_breaks_concat("Conversation history (last 20 of "@, decimal(count));
            lemma_no_breaks_concat(
                "Conversation history (last 20 of "@ + decimal(count),
                " entries):"@,
            );
        }
        assert(no_breaks(heading));
        assert forall|k: int| 0 <= k < lines.len() implies no_breaks(#[trigger] lines[k]) by {
            let skipped = skipped_entries(count);
            let m = entries[k + skipped];
            assert(entries.contains(m));
            messages.lemma_filter_contains_rev(pred, m);
            let i = choose|i: int| 0 <= i < messages.len() && messages[i] == m;
            assert(no_breaks(messages[i].role));
            let label = role_label(m);
            if m.role == "tool"@ {
                if m.tool_call_id is Some {
                    let id = m.tool_call_id.unwrap();
                    lemma_no_breaks_concat("Tool ("@, id);
                    lemma_no_breaks_concat("Tool ("@ + id, ")"@);
                }
            }
            assert(no_breaks(label));
            let n = (k + skipped + 1) as nat;
            lemma_decimal_no_breaks(n);
            lemma_preview_is_one_short_line(
                if preview_parts(m).len() == 0 {
                    "(empty)"@
                } else {
                    join(preview_parts(m), " | "@)
                },
            );
            lemma_no_breaks_concat(decimal(n), ". "@);
            lemma_no_breaks_concat(decimal(n) + ". "@, label);
            lemma_no_breaks_concat(decimal(n) + ". "@ + label, ": "@);
            lemma_no_breaks_concat(decimal(n) + ". "@ + label + ": "@, preview_spec(m));
            assert(lines[k] == entry_line(n, m));
        }
        let all = seq![heading] + lines;
        assert forall|j: int| 0 <= j < all.len() implies no_breaks(#[trigger] all[j]) by {
            if j > 0 {
                assert(all[j] == lines[j - 1]);
            }
        }
    }
}


proof fn lemma_entries_idempotent(messages: Seq<MessageView>)
    ensures
        history_entries(history_entries(messages)) == history_entries(messages),
    decreases messages.len(),
{
    let pred = |m: MessageView| m.role != "system"@;
    if messages.len() == 0 {
        reveal_with_fuel(Seq::<_>::filter, 1);
        assert(history_entries(messages) =~= messages);
    } else {
        let init = messages.drop_last();
        let x = messages.last();
        lemma_entries_idempotent(init);
        assert(init.push(x) == messages);
        init.lemma_filter_push(x, pred);
        if pred(x) {
            init.filter(pred).lemma_filter_push(x, pred);
        }
    }
}

/// System messages, wherever they stand, neither appear in the history nor
/// take an entry number: listing the conversation gives the same text as
/// listing it with its system messages taken out first.
pub proof fn lemma_history_ignores_system_messages(messages: Seq<MessageView>)
    ensures
        history_spec(history_entries(messages)) == history_spec(messages),
{
    lemma_entries_idempotent(messages);
}

/// `s` cut at each newline, as splitting a text into its lines: the text
/// before the first newline, then the text between each newline and the
/// next, then the text after the last one.
pub open spec fn split_lines(s: Seq<char>) -> Seq<Seq<char>>
    decreases s.len(),
{
    if s.len() == 0 {
        seq![Seq::<char>::empty()]
    } else {
        let rest = split_lines(s.skip(1));
        if s[0] == '\n' {
            seq![Seq::<char>::empty()] + rest
        } else {
            rest.update(0, seq![s[0]] + rest[0])
        }
    }
}

proof fn lemma_split_lines_not_empty(s: Seq<char>)
    ensures
        split_lines(s).len() >= 1,
    decreases s.len(),
{
    if s.len() > 0 {
        lemma_split_lines_not_empty(s.skip(1));
    }
}

proof fn lemma_split_lines_prefix(a: Seq<char>, t: Seq<char>)
    requires
        no_breaks(a),
    ensures
        split_lines(a + t) == split_lines(t).update(0, a + split_lines(t)[0]),
    decreases a.len(),
{
    lemma_split_lines_not_empty(t);
    if a.len() == 0 {
        assert(a + t =~= t);
        assert(a + split_lines(t)[0] =~= split_lines(t)[0]);
        assert(split_lines(t).update(0, split_lines(t)[0]) =~= split_lines(t));
    } else {
        let a1 = a.skip(1);
        assert(no_breaks(a1)) by {
            assert forall|i: int| 0 <= i < a1.len() implies #[trigger] a1[i] != '\n' && a1[i] != '\r' by {
                assert(a1[i] == a[i + 1]);
            }
        }
        lemma_split_lines_prefix(a1, t);
        assert((a + t).skip(1) =~= a1 + t);
        assert((a + t)[0] == a[0]);
        assert(a[0] != '\n');
        assert(seq![a[0]] + (a1 + split_lines(t)[0]) =~= a + split_lines(t)[0]);
        assert(split_lines(a + t) =~= split_lines(t).update(0, a + split_lines(t)[0]));
    }
}

/// Splitting lines joined by newlines gives them back, when none holds a
/// line break of its own.
proof fn lemma_split_joined_lines(lines: Seq<Seq<char>>)
    requires
        lines.len() > 0,
        forall|j: int| 0 <= j < lines.len() ==> no_breaks(#[trigger] lines[j]),
    ensures
        split_lines(join(lines, "\n"@)) == lines,
    decreases lines.len(),
{
    reveal_strlit("\n");
    let h = lines[0];
    assert(no_breaks(lines[0]));
    if lines.len() == 1 {
        assert(join(lines, "\n"@) == h);
        assert(h + Seq::<char>::empty() =~= h);
        lemma_split_lines_prefix(h, Seq::<char>::empty());
        assert(split_lines(h) =~= lines);
    } else {
        let rest = lines.skip(1);
        assert(lines =~= seq![h] + rest);
        assert forall|j: int| 0 <= j < rest.len() implies no_breaks(#[trigger] rest[j]) by {
            assert(rest[j] == lines[j + 1]);
        }
        lemma_split_joined_lines(rest);
        lemma_join_prepend(h, rest, "\n"@);
        let tail = "\n"@ + join(rest, "\n"@);
        assert(h + "\n"@ + join(rest, "\n"@) =~= h + tail);
        lemma_split_lines_prefix(h, tail);
        assert(tail.skip(1) =~= join(rest, "\n"@));
        assert(tail[0] == '\n');
        assert(split_lines(tail) =~= seq![Seq::<char>::empty()] + rest);
        assert(h + Seq::<char>::empty() =~= h);
        assert(split_lines(h + tail) =~= lines);
    }
}

/// Split into lines, a non-empty history is its heading followed by one
/// line for each of the last (at most 20) entries, in order, the entry at
/// place `n` among all entries shown as `n. <role>: <preview>`. (Roles and
/// call ids are taken to hold no line break, since they are shown as they
/// are.)
pub proof fn lemma_history_lines_split(messages: Seq<MessageView>)
    requires
        forall|i: int|
            0 <= i < messages.len() ==> no_breaks(#[trigger] messages[i].role) && (
            messages[i].tool_call_id matches Some(id) ==> no_breaks(id)),
    ensures
        history_entries(messages).len() == 0 ==> history_spec(messages) == "No conversation history."@,
        history_entries(messages).len() > 0 ==> {
            let entries = history_entries(messages);
            let n = entries.len();
            let k = history_lines(entries).len();
            let lines = split_lines(history_spec(messages));
            &&& k == if n > HISTORY_MAX_ENTRIES { HISTORY_MAX_ENTRIES as nat } else { n }
            &&& lines.len() == k + 1
            &&& lines[0] == history_heading(n)
            &&& forall|j: int|
                1 <= j <= k ==> #[trigger] lines[j] == entry_line(
                    (n - k + j) as nat,
                    entries[n - k + j - 1],
                )
        },
{
    lemma_history_is_one_line_per_entry(messages);
    let entries = history_entries(messages);
    let n = entries.len();
    if n > 0 {
        let all = seq![history_heading(n)] + history_lines(entries);
        lemma_split_joined_lines(all);
        let k = history_lines(entries).len();
        assert forall|j: int| 1 <= j <= k implies #[trigger] all[j] == entry_line(
            (n - k + j) as nat,
            entries[n - k + j - 1],
        ) by {
            assert(all[j] == history_lines(entries)[j - 1]);
        }
    }
}

/// `s` with each occurrence of `pattern` replaced by `with`, found from
/// left to right without overlap, as `str::replace` does.
pub open spec fn replace_all(s: Seq<char>, pattern: Seq<char>, with: Seq<char>) -> Seq<char>
    decreases s.len(),
{
    if s.len() == 0 || pattern.len() == 0 {
        s
    } else if pattern.len() <= s.len() && s.take(pattern.len() as int) == pattern {
        with + replace_all(s.skip(pattern.len() as int), pattern, with)
    } else {
        seq![s[0]] + replace_all(s.skip(1), pattern, with)
    }
}

/// The line breaks of `s` marked by three replacements in turn: `\r\n` by
/// `\n`, then `\r` by `\n`, then `\n` by ` ↩ `.
pub open spec fn replaced_line_breaks(s: Seq<char>) -> Seq<char> {
    replace_all(replace_all(replace_all(s, "\r\n"@, "\n"@), "\r"@, "\n"@), "\n"@, " ↩ "@)
}

proof fn lemma_replace_one_char(x: char, t: Seq<char>, c: char, with: Seq<char>)
    ensures
        replace_all(seq![x] + t, seq![c], with) == (if x == c {
            with
        } else {
            seq![x]
        }) + replace_all(t, seq![c], with),
{
    let s = seq![x] + t;
    assert(s.take(1) =~= seq![x]);
    assert(s.skip(1) =~= t);
    assert(s[0] == x);
    if x != c {
        assert(seq![x] != seq![c]) by {
            assert(seq![x][0] != seq![c][0]);
        }
    }
}

proof fn lemma_replaced_line_breaks(s: Seq<char>)
    ensures
        mark_line_breaks(s) == replaced_line_breaks(s),
    decreases s.len(),
{
    reveal_strlit("\r\n");
    reveal_strlit("\r");
    reveal_strlit("\n");
    reveal_strlit(" ↩ ");
    let crlf = "\r\n"@;
    let cr = "\r"@;
    let lf = "\n"@;
    let mark = " ↩ "@;
    assert(cr =~= seq!['\r']);
    assert(lf =~= seq!['\n']);
    if s.len() == 0 {
        assert(replace_all(s, crlf, lf) =~= s);
        assert(replace_all(s, cr, lf) =~= s);
        assert(replace_all(s, lf, mark) =~= s);
    } else if s.len() > 1 && s[0] == '\r' && s[1] == '\n' {
        let rest = s.skip(2);
        lemma_replaced_line_breaks(rest);
        assert(s.take(2) =~= crlf);
        let a = replace_all(rest, crlf, lf);
        assert(replace_all(s, crlf, lf) == lf + a);
        lemma_replace_one_char('\n', a, '\r', lf);
        let b = replace_all(a, cr, lf);
        lemma_replace_one_char('\n', b, '\n', mark);
    } else {
        let rest = s.skip(1);
        lemma_replaced_line_breaks(rest);
        let a = replace_all(rest, crlf, lf);
        assert(!(crlf.len() <= s.len() && s.take(2) == crlf)) by {
            if s.len() > 1 && s.take(2) == crlf {
                assert(s.take(2)[0] == s[0] && s.take(2)[1] == s[1]);
            }
        }
        assert(replace_all(s, crlf, lf) == seq![s[0]] + a);
        lemma_replace_one_char(s[0], a, '\r', lf);
        let x = if s[0] == '\r' { '\n' } else { s[0] };
        assert((if s[0] == '\r' { lf } else { seq![s[0]] }) =~= seq![x]);
        let b = replace_all(a, cr, lf);
        lemma_replace_one_char(x, b, '\n', mark);
    }
}

/// The one-line preview is the text with its line breaks replaced in turn
/// (`\r\n` by `\n`, `\r` by `\n`, `\n` by ` ↩ `), cut to its first 200
/// characters followed by `...` when longer.
pub proof fn lemma_preview_replaces_line_breaks(s: Seq<char>)
    ensures
        single_line_spec(s) == if replaced_line_breaks(s).len() > HISTORY_PREVIEW_CHARS {
            replaced_line_breaks(s).take(HISTORY_PREVIEW_CHARS as int) + "..."@
        } else {
            replaced_line_breaks(s)
        },
{
    lemma_replaced_line_breaks(s);
}

proof fn lemma_lowered_slash(s: Seq<char>)
    requires
        s.len() > 0,
    ensures
        ascii_lowercase(s).len() == s.len(),
        ascii_lowercase(s)[0] == '/' <==> s[0] == '/',
{
    assert(ascii_lowercase(s)[0] == ascii_lower(s[0]));
}

/// Text that is neither empty, nor a command (it does not start with `/`),
/// nor an exit word is a prompt, and a prompt is the input with its
/// surrounding whitespace removed and nothing else changed; an unknown
/// command is likewise the trimmed input; only blank input is empty.
pub proof fn lemma_prompts_are_the_trimmed_input(input: Seq<char>)
    ensures
        classify_spec(input) matches ReplInputView::Prompt(p) ==> p == trimmed(input) && p.len()
            > 0 && p[0] != '/',
        classify_spec(input) matches ReplInputView::UnknownCommand(c) ==> c == trimmed(input)
            && c.len() > 0 && c[0] == '/',
        classify_spec(input) is Empty <==> trimmed(input).len() == 0,
        ({
            let t = trimmed(input);
            (t.len() > 0 && t[0] != '/' && ascii_lowercase(t) != "exit"@ && ascii_lowercase(t)
                != "quit"@) ==> classify_spec(input) == ReplInputView::Prompt(t)
        }),
{
    let t = trimmed(input);
    if t.len() > 0 {
        reveal_strlit("exit");
        reveal_strlit("quit");
        reveal_strlit("/exit");
        reveal_strlit("/quit");
        reveal_strlit("/help");
        reveal_strlit("/clear");
        reveal_strlit("/history");
        reveal_strlit("/config");
        reveal_strlit("/save");
        reveal_strlit("/load");
        lemma_lowered_slash(t);
        let fw = first_whitespace(t);
        lemma_first_whitespace_bound(t);
        let word = ascii_lowercase(t.take(fw as int));
        if fw > 0 {
            lemma_lowered_slash(t.take(fw as int));
            assert(t.take(fw as int)[0] == t[0]);
        }
        assert(ascii_lowercase("exit"@) =~= "exit"@);
        assert(ascii_lowercase("quit"@) =~= "quit"@);
        assert(ascii_lowercase("/exit"@) =~= "/exit"@);
        assert(ascii_lowercase("/quit"@) =~= "/quit"@);
        if t[0] != '/' {
            assert(word.len() == 0 || word[0] != '/');
            assert(ascii_lowercase(t)[0] != '/');
            assert(ascii_lowercase(t) != "/exit"@);
            assert(ascii_lowercase(t) != "/quit"@);
            assert(word != "/help"@);
            assert(word != "/clear"@);
            assert(word != "/history"@);
            assert(word != "/config"@);
            assert(word != "/save"@);
            assert(word != "/load"@);
        }
    }
}

proof fn lemma_first_whitespace_bound(s: Seq<char>)
    ensures
        first_whitespace(s) <= s.len(),
    decreases s.len(),
{
    if s.len() > 0 && !is_whitespace(s[0]) {
        lemma_first_whitespace_bound(s.drop_first());
    }
}

/// A message's preview shows its content when that is not empty, then every
/// one of its tool calls, in order, each as `tool call <name> <arguments>`.
pub proof fn lemma_preview_shows_every_call(m: MessageView)
    ensures
        ({
            let shown: int = if m.content matches Some(c) && c.len() > 0 {
                1
            } else {
                0
            };
            &&& preview_parts(m).len() == shown + m.tool_calls.len()
            &&& shown == 1 ==> preview_parts(m)[0] == m.content.unwrap()
            &&& forall|k: int|
                0 <= k < m.tool_calls.len() ==> #[trigger] preview_parts(m)[shown + k] == "tool call "@
                    + m.tool_calls[k].name + " "@ + m.tool_calls[k].arguments
        }),
{
}

/// Whether `p` is a stretch of `s` as typed, not blank and with no
/// whitespace at either end.
pub open spec fn is_typed_word(p: Seq<char>, s: Seq<char>) -> bool {
    &&& p.len() > 0
    &&& !is_whitespace(p[0])
    &&& !is_whitespace(p.last())
    &&& exists|i: int, j: int| 0 <= i <= j <= s.len() && p == s.subrange(i, j)
}

proof fn lemma_command_argument_is_typed(input: Seq<char>)
    ensures
        command_argument(trimmed(input)) matches Some(p) ==> is_typed_word(p, input),
{
    let t = trimmed(input);
    lemma_trimmed_is_the_inner_text(input);
    let (i0, j0) = choose|i: int, j: int|
        0 <= i <= j <= input.len() && trimmed(input) == input.subrange(i, j) && (forall|k: int|
            0 <= k < i ==> is_whitespace(#[trigger] input[k])) && (forall|k: int|
            j <= k < input.len() ==> is_whitespace(#[trigger] input[k]));
    let fw = first_whitespace(t);
    lemma_first_whitespace_bound(t);
    let u = t.skip(fw as int);
    assert(u == input.subrange(i0 + fw, j0));
    lemma_trimmed_is_the_inner_text(u);
    let (i1, j1) = choose|i: int, j: int|
        0 <= i <= j <= u.len() && trimmed(u) == u.subrange(i, j) && (forall|k: int|
            0 <= k < i ==> is_whitespace(#[trigger] u[k])) && (forall|k: int|
            j <= k < u.len() ==> is_whitespace(#[trigger] u[k]));
    assert(trimmed(u) == input.subrange(i0 + fw + i1, i0 + fw + j1));
}

/// A file name given to `/save` or `/load` is part of the input exactly as
/// typed: not blank, with no whitespace around it, its case kept.
pub proof fn lemma_session_paths_are_typed(input: Seq<char>)
    ensures
        classify_spec(input) matches ReplInputView::Command(ReplCommandView::Save(Some(p)))
            ==> is_typed_word(p, input),
        classify_spec(input) matches ReplInputView::Command(ReplCommandView::Load(Some(p)))
            ==> is_typed_word(p, input),
{
    lemma_command_argument_is_typed(input);
}

/// The history's entries are the conversation's messages other than system
/// messages, every one of them, in order: none for an empty conversation,
/// and a message added at the end adds one entry at the end unless it is a
/// system message.
pub proof fn lemma_entries_keep_every_other_message(messages: Seq<MessageView>, m: MessageView)
    ensures
        history_entries(Seq::<MessageView>::empty()) == Seq::<MessageView>::empty(),
        history_entries(messages.push(m)) == if m.role == "system"@ {
            history_entries(messages)
        } else {
            history_entries(messages).push(m)
        },
{
    let pred = |x: MessageView| x.role != "system"@;
    reveal_with_fuel(Seq::<_>::filter, 1);
    assert(history_entries(Seq::<MessageView>::empty()) =~= Seq::<MessageView>::empty());
    messages.lemma_filter_push(m, pred);
}

} // verus!
