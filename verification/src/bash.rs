//! Bash tool calls: checking what the model asked to run, the user's
//! approval, and what the model is told about a command's run.
use vstd::prelude::*;
use vstd::string::*;

use crate::message::{Message, MessageView, ToolCall, ToolCallView};
use crate::repl::eq_ignore_ascii_case;
use crate::text::{
    ascii_lower, ascii_lowercase, chars_equal, chars_of, decimal, push_decimal, text_result, to_ascii_lowercase, trim,
    trimmed,
};

verus! {

pub const BASH_TOOL_NAME: &'static str = "bash";

/// The largest part of a command's output, stdout or stderr, that reaches
/// the model whole, in bytes.
pub const MAX_OUTPUT_BYTES: usize = 8 * 1024;

/// A Bash command that the model asked to run.
#[derive(Debug)]
pub struct BashCall {
    pub tool_call_id: String,
    pub command: String,
}

/// The command of a tool call, or why it is refused. `arguments` is what
/// reading the call's JSON arguments as `{"command": <string>}` gave: the
/// command, or the reader's error.
pub open spec fn bash_call_spec(call: ToolCallView, arguments: Result<Seq<char>, Seq<char>>) -> Result<
    (Seq<char>, Seq<char>),
    Seq<char>,
> {
    if call.kind != "function"@ {
        Err("Unsupported tool call type: "@ + call.kind)
    } else if call.name != BASH_TOOL_NAME@ {
        Err("Unknown tool: "@ + call.name)
    } else {
        match arguments {
            Err(e) => Err("Invalid Bash tool arguments: "@ + e),
            Ok(command) => if trimmed(command).len() == 0 {
                Err("Bash command cannot be empty"@)
            } else {
                Ok((call.id, command))
            },
        }
    }
}

/// The checked Bash call for a tool call, given what its arguments read as.
pub fn parse_bash_call(tool_call: &ToolCall, arguments: Result<String, String>) -> (r: Result<
    BashCall,
    String,
>)
    ensures
        match r {
            Ok(c) => bash_call_spec(tool_call@, text_result(arguments)) == Ok::<
                (Seq<char>, Seq<char>),
                Seq<char>,
            >((c.tool_call_id@, c.command@)),
            Err(e) => bash_call_spec(tool_call@, text_result(arguments)) == Err::<
                (Seq<char>, Seq<char>),
                Seq<char>,
            >(e@),
        },
{
    if !chars_equal(&chars_of(tool_call.kind.as_str()), &chars_of("function")) {
        let mut e = String::from_str("Unsupported tool call type: ");
        e.append(tool_call.kind.as_str());
        return Err(e);
    }
    if !chars_equal(&chars_of(tool_call.function.name.as_str()), &chars_of(BASH_TOOL_NAME)) {
        let mut e = String::from_str("Unknown tool: ");
        e.append(tool_call.function.name.as_str());
        return Err(e);
    }
    match arguments {
        Err(error) => {
            let mut e = String::from_str("Invalid Bash tool arguments: ");
            e.append(error.as_str());
            Err(e)
        },
        Ok(command) => {
            if trim(&chars_of(command.as_str())).len() == 0 {
                return Err(String::from_str("Bash command cannot be empty"));
            }
            Ok(BashCall { tool_call_id: tool_call.id.clone(), command })
        },
    }
}

/// A line as typed, without the line ending that reading it kept
/// (`\r\n` or `\n`).
pub open spec fn without_line_ending(s: Seq<char>) -> Seq<char> {
    if s.len() >= 2 && s[s.len() - 2] == '\r' && s.last() == '\n' {
        s.take(s.len() - 2)
    } else if s.len() >= 1 && s.last() == '\n' {
        s.drop_last()
    } else {
        s
    }
}

/// Whether the user's answer approves a command: `y` or `yes`, in any case,
/// and nothing else on the line.
pub open spec fn approves(answer: Seq<char>) -> bool {
    eq_ignore_ascii_case(without_line_ending(answer), "y"@) || eq_ignore_ascii_case(
        without_line_ending(answer),
        "yes"@,
    )
}

/// Whether the user's answer to "Allow command?" approves the command.
pub fn is_approval(answer: &str) -> (r: bool)
    ensures
        r == approves(answer@),
{
    let v = chars_of(answer);
    let n = v.len();
    let end: usize = if n >= 2 && v[n - 2] == '\r' && v[n - 1] == '\n' {
        n - 2
    } else if n >= 1 && v[n - 1] == '\n' {
        n - 1
    } else {
        n
    };
    let mut line: Vec<char> = Vec::new();
    let mut i: usize = 0;
    while i < end
        invariant
            end <= v@.len(),
            i <= end,
            line@ == v@.take(i as int),
        decreases end - i,
    {
        line.push(v[i]);
        assert(v@.take(i + 1) == v@.take(i as int).push(v@[i as int]));
        i = i + 1;
    }
    assert(line@ == without_line_ending(v@)) by {
        if n >= 1 {
            assert(v@.last() == v@[n - 1]);
            assert(v@.drop_last() == v@.take(n - 1));
        }
        assert(v@.take(n as int) == v@);
    }
    let lowered = to_ascii_lowercase(&line);
    let y = to_ascii_lowercase(&chars_of("y"));
    let yes = to_ascii_lowercase(&chars_of("yes"));
    chars_equal(&lowered, &y) || chars_equal(&lowered, &yes)
}

pub open spec fn truncation_marker() -> Seq<u8> {
    "\n[... output truncated ...]\n".spec_bytes()
}

/// Output as the model sees it: whole when it fits in 8 KiB, else its first
/// and last 4 KiB around a truncation marker.
pub open spec fn limited_output_spec(output: Seq<u8>) -> Seq<u8> {
    if output.len() <= MAX_OUTPUT_BYTES {
        output
    } else {
        output.take((MAX_OUTPUT_BYTES / 2) as int) + truncation_marker() + output.skip(
            output.len() - MAX_OUTPUT_BYTES / 2,
        )
    }
}

fn push_bytes_range(out: &mut Vec<u8>, v: &[u8], from: usize, to: usize)
    requires
        from <= to <= v@.len(),
    ensures
        final(out)@ == old(out)@ + v@.subrange(from as int, to as int),
{
    let mut i = from;
    while i < to
        invariant
            from <= i <= to <= v@.len(),
            out@ == old(out)@ + v@.subrange(from as int, i as int),
        decreases to - i,
    {
        out.push(v[i]);
        assert(v@.subrange(from as int, i + 1) == v@.subrange(from as int, i as int).push(
            v@[i as int],
        ));
        i = i + 1;
    }
}

/// One part of a command's output, limited to what reaches the model.
pub fn limit_output(output: &Vec<u8>) -> (r: Vec<u8>)
    ensures
        r@ == limited_output_spec(output@),
{
    let n = output.len();
    let mut r: Vec<u8> = Vec::new();
    if n <= MAX_OUTPUT_BYTES {
        push_bytes_range(&mut r, output.as_slice(), 0, n);
        assert(output@.subrange(0, n as int) == output@);
        return r;
    }
    let half = MAX_OUTPUT_BYTES / 2;
    push_bytes_range(&mut r, output.as_slice(), 0, half);
    let marker = "\n[... output truncated ...]\n".as_bytes();
    push_bytes_range(&mut r, marker, 0, marker.len());
    assert(marker@.subrange(0, marker@.len() as int) == marker@);
    push_bytes_range(&mut r, output.as_slice(), n - half, n);
    assert(output@.subrange(0, half as int) == output@.take(half as int));
    assert(output@.subrange(n - half, n as int) == output@.skip(n - half));
    r
}

/// The text of bytes read as UTF-8, with each invalid sequence replaced by
/// U+FFFD (`String::from_utf8_lossy`).
pub uninterp spec fn utf8_lossy_text(bytes: Seq<u8>) -> Seq<char>;

/// The bytes `bytes` as text, invalid UTF-8 replaced
/// (`String::from_utf8_lossy`).
#[verifier::external_body]
pub(crate) fn utf8_lossy(bytes: &[u8]) -> (s: String)
    ensures
        s@ == utf8_lossy_text(bytes@),
{
    String::from_utf8_lossy(bytes).into_owned()
}

/// What the model is told when the user refuses a command.
pub open spec fn denial_spec() -> Seq<char> {
    "The user denied this command."@
}

/// The tool result for a command that the user did not approve.
pub fn denied_result(call: &BashCall) -> (m: Message)
    ensures
        m@ == (MessageView {
            role: "tool"@,
            content: Some(denial_spec()),
            tool_calls: Seq::empty(),
            tool_call_id: Some(call.tool_call_id@),
        }),
{
    Message::tool_result(call.tool_call_id.clone(), String::from_str("The user denied this command."))
}

/// What the model is told about a command's run: how it ended, then its
/// (already limited) stdout and stderr.
pub open spec fn report_spec(exit_code: Option<i32>, timed_out: bool, stdout: Seq<char>, stderr: Seq<char>) -> Seq<char> {
    let status = if timed_out {
        "Command timed out"@
    } else {
        match exit_code {
            Some(c) => "Exit code: "@ + (if c < 0 {
                "-"@ + decimal((-c) as nat)
            } else {
                decimal(c as nat)
            }),
            None => "Exit code: none (terminated by a signal)"@,
        }
    };
    status + "\nStdout:\n"@ + stdout + "\nStderr:\n"@ + stderr
}

/// The tool result for a command that ran.
pub fn command_report(
    call: &BashCall,
    exit_code: Option<i32>,
    timed_out: bool,
    stdout: &str,
    stderr: &str,
) -> (m: Message)
    ensures
        m@ == (MessageView {
            role: "tool"@,
            content: Some(report_spec(exit_code, timed_out, stdout@, stderr@)),
            tool_calls: Seq::empty(),
            tool_call_id: Some(call.tool_call_id@),
        }),
{
    let mut s = String::new();
    if timed_out {
        s.append("Command timed out");
    } else {
        match exit_code {
            Some(c) => {
                s.append("Exit code: ");
                if c < 0 {
                    s.append("-");
                    let magnitude: u64 = (0 - (c as i64)) as u64;
                    push_decimal(&mut s, magnitude);
                } else {
                    push_decimal(&mut s, c as u64);
                }
            },
            None => s.append("Exit code: none (terminated by a signal)"),
        }
    }
    s.append("\nStdout:\n");
    s.append(stdout);
    s.append("\nStderr:\n");
    s.append(stderr);
    assert(s@ =~= report_spec(exit_code, timed_out, stdout@, stderr@));
    Message::tool_result(call.tool_call_id.clone(), s)
}

/// Output that fits reaches the model whole; longer output keeps its first
/// and last 4 KiB, so what reaches the model is never longer than 8 KiB and
/// the marker.
pub proof fn lemma_limited_output_is_bounded(output: Seq<u8>)
    ensures
        limited_output_spec(output).len() <= MAX_OUTPUT_BYTES + truncation_marker().len(),
        output.len() <= MAX_OUTPUT_BYTES ==> limited_output_spec(output) == output,
        output.len() > MAX_OUTPUT_BYTES ==> has_prefix_bytes(
            limited_output_spec(output),
            output.take((MAX_OUTPUT_BYTES / 2) as int),
        ),
        output.len() > MAX_OUTPUT_BYTES ==> limited_output_spec(output).len() == MAX_OUTPUT_BYTES
            + truncation_marker().len(),
        output.len() > MAX_OUTPUT_BYTES ==> limited_output_spec(output).skip(
            limited_output_spec(output).len() - MAX_OUTPUT_BYTES / 2,
        ) == output.skip(output.len() - MAX_OUTPUT_BYTES / 2),
        output.len() > MAX_OUTPUT_BYTES ==> limited_output_spec(output).subrange(
            (MAX_OUTPUT_BYTES / 2) as int,
            (MAX_OUTPUT_BYTES / 2 + truncation_marker().len()) as int,
        ) == truncation_marker(),
{
    if output.len() > MAX_OUTPUT_BYTES {
        let l = limited_output_spec(output);
        let head = output.take((MAX_OUTPUT_BYTES / 2) as int);
        assert(l.take(head.len() as int) =~= head);
        let tail = output.skip(output.len() - MAX_OUTPUT_BYTES / 2);
        assert(l.skip(l.len() - MAX_OUTPUT_BYTES / 2) =~= tail);
        assert(l.subrange(
            (MAX_OUTPUT_BYTES / 2) as int,
            (MAX_OUTPUT_BYTES / 2 + truncation_marker().len()) as int,
        ) =~= truncation_marker());
    }
}

/// A Bash call is accepted only for a function call to the `bash` tool
/// whose arguments read as a command that is not blank, and then it is
/// that call's id with that command exactly as given; such a call is always
/// accepted.
pub proof fn lemma_bash_calls_keep_id_and_command(
    call: ToolCallView,
    arguments: Result<Seq<char>, Seq<char>>,
)
    ensures
        bash_call_spec(call, arguments) matches Ok((id, command)) ==> {
            &&& call.kind == "function"@
            &&& call.name == "bash"@
            &&& arguments == Ok::<Seq<char>, Seq<char>>(command)
            &&& id == call.id
            &&& trimmed(command).len() > 0
        },
        arguments matches Ok(command) ==> ((call.kind == "function"@ && call.name == "bash"@
            && trimmed(command).len() > 0) ==> bash_call_spec(call, arguments) == Ok::<
            (Seq<char>, Seq<char>),
            Seq<char>,
        >((call.id, command))),
{
}

/// Whether `prefix` starts `s`.
pub open spec fn has_prefix_bytes(s: Seq<u8>, prefix: Seq<u8>) -> bool {
    prefix.len() <= s.len() && s.take(prefix.len() as int) == prefix
}

/// Whether `x` is `y` or `yes`, in any mix of upper and lower case.
pub open spec fn is_yes_word(x: Seq<char>) -> bool {
    ||| x.len() == 1 && (x[0] == 'y' || x[0] == 'Y')
    ||| x.len() == 3 && (x[0] == 'y' || x[0] == 'Y') && (x[1] == 'e' || x[1] == 'E') && (x[2]
        == 's' || x[2] == 'S')
}

proof fn lemma_lower_is(c: char, l: char)
    requires
        'a' <= l <= 'z',
    ensures
        ascii_lower(c) == l <==> (c == l || c as u32 == l as u32 - 32),
{
}

proof fn lemma_yes_word(x: Seq<char>)
    ensures
        eq_ignore_ascii_case(x, "y"@) || eq_ignore_ascii_case(x, "yes"@) <==> is_yes_word(x),
{
    reveal_strlit("y");
    reveal_strlit("yes");
    assert(ascii_lowercase("y"@) =~= "y"@);
    assert(ascii_lowercase("yes"@) =~= "yes"@);
    lemma_lower_is('y', 'y');
    lemma_lower_is('Y', 'y');
    lemma_lower_is('e', 'e');
    lemma_lower_is('E', 'e');
    lemma_lower_is('s', 's');
    lemma_lower_is('S', 's');
    let l = ascii_lowercase(x);
    if x.len() == 1 {
        lemma_lower_is(x[0], 'y');
        assert(l[0] == ascii_lower(x[0]));
        if l[0] == 'y' {
            assert(l =~= "y"@);
        }
    } else if x.len() == 3 {
        lemma_lower_is(x[0], 'y');
        lemma_lower_is(x[1], 'e');
        lemma_lower_is(x[2], 's');
        assert(l[0] == ascii_lower(x[0]));
        assert(l[1] == ascii_lower(x[1]));
        assert(l[2] == ascii_lower(x[2]));
        if l[0] == 'y' && l[1] == 'e' && l[2] == 's' {
            assert(l =~= "yes"@);
        }
    } else {
        assert(l.len() != 1 && l.len() != 3);
    }
}

/// Only `y` or `yes`, in any case, approves a command, with at most a line
/// ending after it: every other answer, an empty line among them, denies it.
pub proof fn lemma_only_yes_approves(answer: Seq<char>)
    ensures
        approves(answer) <==> exists|x: Seq<char>|
            is_yes_word(x) && (answer == x || answer == x + "\n"@ || answer == x + "\r\n"@),
{
    reveal_strlit("\n");
    reveal_strlit("\r\n");
    let w = without_line_ending(answer);
    lemma_yes_word(w);
    if approves(answer) {
        if answer.len() >= 2 && answer[answer.len() - 2] == '\r' && answer.last() == '\n' {
            assert(answer == w + "\r\n"@);
        } else if answer.len() >= 1 && answer.last() == '\n' {
            assert(answer == w + "\n"@);
        }
    }
    if exists|x: Seq<char>|
        is_yes_word(x) && (answer == x || answer == x + "\n"@ || answer == x + "\r\n"@) {
        let x = choose|x: Seq<char>|
            is_yes_word(x) && (answer == x || answer == x + "\n"@ || answer == x + "\r\n"@);
        lemma_yes_word(x);
        if answer == x {
            assert(answer.last() == x.last());
            assert(w == x);
        } else if answer == x + "\n"@ {
            assert(answer[answer.len() - 2] == x.last());
            assert(answer.drop_last() =~= x);
        } else {
            assert(answer.take(answer.len() - 2) =~= x);
        }
    }
}

} // verus!
