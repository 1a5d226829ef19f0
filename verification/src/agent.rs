//! The agent loop's decisions: what a model turn yields, and how many turns
//! one prompt may take.
use vstd::prelude::*;
use vstd::string::*;

use crate::bash::{
    BashCall, approves, bash_call_spec, lemma_bash_calls_keep_id_and_command, command_report, denial_spec, denied_result, is_approval,
    limit_output, limited_output_spec, parse_bash_call, report_spec, utf8_lossy, utf8_lossy_text,
};
use crate::message::{
    Message, MessageView, ToolCall, ToolCallView, copy_tool_calls, messages_view,
    tool_calls_view,
};
use crate::text::{decimal, push_decimal, text_result};

verus! {

/// What one model turn yields: a final answer, or tool calls to run.
#[derive(Debug)]
pub enum TurnOutcome {
    FinalText(String),
    ToolCalls(Vec<ToolCall>),
}

pub enum TurnOutcomeView {
    FinalText(Seq<char>),
    ToolCalls(Seq<ToolCallView>),
}

impl View for TurnOutcome {
    type V = TurnOutcomeView;

    open spec fn view(&self) -> TurnOutcomeView {
        match self {
            TurnOutcome::FinalText(t) => TurnOutcomeView::FinalText(t@),
            TurnOutcome::ToolCalls(c) => TurnOutcomeView::ToolCalls(tool_calls_view(c@)),
        }
    }
}

/// What a turn yields for the model's response: its tool calls when it has
/// any, else its text; an error when it has neither.
pub open spec fn turn_spec(response: Message) -> Result<TurnOutcomeView, Seq<char>> {
    if response.tool_calls@.len() == 0 {
        match response.content {
            Some(c) => Ok(TurnOutcomeView::FinalText(c@)),
            None => Err("The model response contained no text or tool calls"@),
        }
    } else {
        Ok(TurnOutcomeView::ToolCalls(tool_calls_view(response.tool_calls@)))
    }
}

/// Records one model turn. `response` is what the model was asked for the
/// conversation `messages`: on an answer with text or tool calls, it is
/// appended to the conversation; on an error, or an answer with neither,
/// the conversation is left as it was.
pub fn run_turn(messages: &mut Vec<Message>, response: Result<Message, String>) -> (r: Result<
    TurnOutcome,
    String,
>)
    ensures
        match response {
            Err(e) => r matches Err(f) && f@ == e@ && final(messages)@ == old(messages)@,
            Ok(m) => match turn_spec(m) {
                Ok(o) => r matches Ok(p) && p@ == o && final(messages)@ == old(messages)@.push(m),
                Err(e) => r matches Err(f) && f@ == e && final(messages)@ == old(messages)@,
            },
        },
{
    let response = match response {
        Ok(m) => m,
        Err(e) => {
            return Err(e);
        },
    };
    let outcome = if response.tool_calls.len() == 0 {
        match &response.content {
            Some(c) => TurnOutcome::FinalText(c.clone()),
            None => {
                return Err(String::from_str("The model response contained no text or tool calls"));
            },
        }
    } else {
        TurnOutcome::ToolCalls(copy_tool_calls(&response.tool_calls))
    };
    messages.push(response);
    Ok(outcome)
}

/// Where the answer to one prompt stands.
#[derive(PartialEq, Eq, Structural, Clone, Copy, Debug)]
pub enum AgentPhase {
    /// Nothing asked yet.
    Idle,
    /// Waiting for the model's response.
    AwaitingModel,
    /// Waiting for the arguments of the next tool call to be read.
    ReadingArguments,
    /// Waiting for the user to approve a command.
    AwaitingApproval,
    /// Waiting for an approved command to run.
    Running,
    /// The prompt is answered, or failed.
    Done,
}

/// The state of the agent while it answers one prompt: its turn count and
/// limit, the tool calls of the last model turn, and the call at hand.
pub struct AgentState {
    pub max_turns: usize,
    pub turns_taken: usize,
    pub phase: AgentPhase,
    pub calls: Vec<ToolCall>,
    pub next_call: usize,
    pub current: Option<BashCall>,
}

pub struct AgentStateView {
    pub max_turns: nat,
    pub turns_taken: nat,
    pub phase: AgentPhase,
    pub calls: Seq<ToolCallView>,
    pub next_call: nat,
    pub current: Option<(Seq<char>, Seq<char>)>,
}

impl View for AgentState {
    type V = AgentStateView;

    open spec fn view(&self) -> AgentStateView {
        AgentStateView {
            max_turns: self.max_turns as nat,
            turns_taken: self.turns_taken as nat,
            phase: self.phase,
            calls: tool_calls_view(self.calls@),
            next_call: self.next_call as nat,
            current: match self.current {
                Some(c) => Some((c.tool_call_id@, c.command@)),
                None => None,
            },
        }
    }
}

/// What happened since the last step.
pub enum AgentEvent {
    /// The user's prompt was added to the conversation.
    Start,
    /// The model answered the conversation, or the request failed.
    ModelResponse(Result<Message, String>),
    /// The arguments of the tool call at hand, read as `{"command": <string>}`,
    /// or the reader's error.
    Arguments(Result<String, String>),
    /// The user's answer to whether the command may run.
    Answer(String),
    /// The approved command ran to its end or was stopped at the timeout.
    Finished { exit_code: Option<i32>, timed_out: bool, stdout: Vec<u8>, stderr: Vec<u8> },
    /// The approved command could not be started.
    NotRun(String),
}

/// What the program is to do next.
pub enum AgentAction {
    /// Send the conversation to the model.
    AskModel,
    /// Read these tool-call arguments.
    ReadArguments(String),
    /// Ask the user whether this command may run.
    AskApproval(String),
    /// Run this approved command.
    RunCommand(String),
    /// The prompt's answer.
    Finish(String),
    /// The prompt failed with this error.
    Fail(String),
}

pub enum AgentActionView {
    AskModel,
    ReadArguments(Seq<char>),
    AskApproval(Seq<char>),
    RunCommand(Seq<char>),
    Finish(Seq<char>),
    Fail(Seq<char>),
}

impl View for AgentAction {
    type V = AgentActionView;

    open spec fn view(&self) -> AgentActionView {
        match self {
            AgentAction::AskModel => AgentActionView::AskModel,
            AgentAction::ReadArguments(t) => AgentActionView::ReadArguments(t@),
            AgentAction::AskApproval(t) => AgentActionView::AskApproval(t@),
            AgentAction::RunCommand(t) => AgentActionView::RunCommand(t@),
            AgentAction::Finish(t) => AgentActionView::Finish(t@),
            AgentAction::Fail(t) => AgentActionView::Fail(t@),
        }
    }
}

/// A consistent state: the turn count within its limit, and a call at hand
/// whenever one is being read, approved or run.
pub open spec fn agent_ready(s: AgentStateView) -> bool {
    &&& s.turns_taken <= s.max_turns
    &&& s.next_call <= s.calls.len()
    &&& s.phase == AgentPhase::ReadingArguments ==> s.next_call < s.calls.len()
    &&& (s.phase == AgentPhase::AwaitingApproval || s.phase == AgentPhase::Running) ==> (
    s.next_call < s.calls.len() && s.current is Some)
}

/// The event that each phase waits for.
pub open spec fn expects(s: AgentStateView, e: AgentEvent) -> bool {
    match s.phase {
        AgentPhase::Idle => e is Start,
        AgentPhase::AwaitingModel => e is ModelResponse,
        AgentPhase::ReadingArguments => e is Arguments,
        AgentPhase::AwaitingApproval => e is Answer,
        AgentPhase::Running => e is Finished || e is NotRun,
        AgentPhase::Done => false,
    }
}

/// The error when a prompt used up its model turns.
pub open spec fn turn_limit_message(max_turns: nat) -> Seq<char> {
    "The agent stopped after reaching the maximum of "@ + decimal(max_turns) + " turns"@
}

/// A tool result answering the call `id`.
pub open spec fn tool_message(id: Seq<char>, content: Seq<char>) -> MessageView {
    MessageView {
        role: "tool"@,
        content: Some(content),
        tool_calls: Seq::empty(),
        tool_call_id: Some(id),
    }
}

/// After a call is dealt with: read the next call's arguments; when none
/// is left, ask the model again if a turn remains, else fail.
pub open spec fn continue_spec(s: AgentStateView) -> (AgentStateView, AgentActionView) {
    if s.next_call < s.calls.len() {
        (
            AgentStateView { phase: AgentPhase::ReadingArguments, current: None, ..s },
            AgentActionView::ReadArguments(s.calls[s.next_call as int].arguments),
        )
    } else if s.turns_taken < s.max_turns {
        (
            AgentStateView {
                phase: AgentPhase::AwaitingModel,
                current: None,
                turns_taken: s.turns_taken + 1,
                ..s
            },
            AgentActionView::AskModel,
        )
    } else {
        (
            AgentStateView { phase: AgentPhase::Done, current: None, ..s },
            AgentActionView::Fail(turn_limit_message(s.max_turns)),
        )
    }
}

/// The state after the call at hand is dealt with.
pub open spec fn past_current(s: AgentStateView) -> AgentStateView {
    AgentStateView { next_call: s.next_call + 1, current: None, ..s }
}

/// One step of answering a prompt: the new state, the conversation, and
/// what to do next.
pub open spec fn agent_step_spec(
    s: AgentStateView,
    msgs: Seq<MessageView>,
    e: AgentEvent,
) -> (AgentStateView, Seq<MessageView>, AgentActionView) {
    let done = AgentStateView { phase: AgentPhase::Done, ..s };
    match e {
        AgentEvent::Start => {
            let (t, a) = continue_spec(s);
            (t, msgs, a)
        },
        AgentEvent::ModelResponse(r) => match r {
            Err(err) => (done, msgs, AgentActionView::Fail(err@)),
            Ok(m) => match turn_spec(m) {
                Err(err) => (done, msgs, AgentActionView::Fail(err)),
                Ok(TurnOutcomeView::FinalText(t)) => (
                    done,
                    msgs.push(m@),
                    AgentActionView::Finish(t),
                ),
                Ok(TurnOutcomeView::ToolCalls(cs)) => {
                    let (t, a) = continue_spec(AgentStateView { calls: cs, next_call: 0, ..s });
                    (t, msgs.push(m@), a)
                },
            },
        },
        AgentEvent::Arguments(r) => {
            let c = s.calls[s.next_call as int];
            match bash_call_spec(c, text_result(r)) {
                Err(err) => {
                    let (t, a) = continue_spec(past_current(s));
                    (t, msgs.push(tool_message(c.id, err)), a)
                },
                Ok((id, command)) => (
                    AgentStateView {
                        phase: AgentPhase::AwaitingApproval,
                        current: Some((id, command)),
                        ..s
                    },
                    msgs,
                    AgentActionView::AskApproval(command),
                ),
            }
        },
        AgentEvent::Answer(answer) => {
            let (id, command) = s.current.unwrap();
            if approves(answer@) {
                (
                    AgentStateView { phase: AgentPhase::Running, ..s },
                    msgs,
                    AgentActionView::RunCommand(command),
                )
            } else {
                let (t, a) = continue_spec(past_current(s));
                (t, msgs.push(tool_message(id, denial_spec())), a)
            }
        },
        AgentEvent::Finished { exit_code, timed_out, stdout, stderr } => {
            let (id, command) = s.current.unwrap();
            let (t, a) = continue_spec(past_current(s));
            (
                t,
                msgs.push(
                    tool_message(
                        id,
                        report_spec(
                            exit_code,
                            timed_out,
                            utf8_lossy_text(limited_output_spec(stdout@)),
                            utf8_lossy_text(limited_output_spec(stderr@)),
                        ),
                    ),
                ),
                a,
            )
        },
        AgentEvent::NotRun(err) => {
            let (id, command) = s.current.unwrap();
            let (t, a) = continue_spec(past_current(s));
            (t, msgs.push(tool_message(id, "Could not run command: "@ + err@)), a)
        },
    }
}

proof fn lemma_push_view(v: Seq<Message>, m: Message)
    ensures
        messages_view(v.push(m)) == messages_view(v).push(m@),
{
    assert(messages_view(v.push(m)) =~= messages_view(v).push(m@));
}

impl AgentState {
    /// A prompt about to be answered, with at most `max_turns` model turns.
    pub fn new(max_turns: usize) -> (s: AgentState)
        ensures
            s@ == fresh_agent(max_turns as nat),
            agent_ready(s@),
    {
        let s = AgentState {
            max_turns,
            turns_taken: 0,
            phase: AgentPhase::Idle,
            calls: Vec::new(),
            next_call: 0,
            current: None,
        };
        assert(tool_calls_view(s.calls@) =~= Seq::empty());
        s
    }

    fn continue_step(&mut self) -> (a: AgentAction)
        requires
            old(self).next_call <= old(self).calls@.len(),
            old(self).turns_taken <= old(self).max_turns,
        ensures
            (final(self)@, a@) == continue_spec(old(self)@),
    {
        self.current = None;
        if self.next_call < self.calls.len() {
            self.phase = AgentPhase::ReadingArguments;
            AgentAction::ReadArguments(self.calls[self.next_call].function.arguments.clone())
        } else if self.turns_taken < self.max_turns {
            self.phase = AgentPhase::AwaitingModel;
            self.turns_taken = self.turns_taken + 1;
            AgentAction::AskModel
        } else {
            self.phase = AgentPhase::Done;
            let mut e = String::from_str("The agent stopped after reaching the maximum of ");
            push_decimal(&mut e, self.max_turns as u64);
            e.append(" turns");
            AgentAction::Fail(e)
        }
    }
}

/// Takes one event of answering a prompt: updates the state and the
/// conversation `messages`, and says what to do next.
pub fn agent_step(state: &mut AgentState, messages: &mut Vec<Message>, event: AgentEvent) -> (a:
    AgentAction)
    requires
        agent_ready(old(state)@),
        expects(old(state)@, event),
    ensures
        (final(state)@, messages_view(final(messages)@), a@) == agent_step_spec(
            old(state)@,
            messages_view(old(messages)@),
            event,
        ),
        agent_ready(final(state)@),
{
    let ghost s0 = state@;
    let ghost m0 = messages@;
    let call_count = state.calls.len();
    assert(state@.calls.len() == state.calls@.len());
    assert(state.phase == AgentPhase::ReadingArguments || state.phase
        == AgentPhase::AwaitingApproval || state.phase == AgentPhase::Running ==> state.next_call
        < call_count);
    match event {
        AgentEvent::Start => state.continue_step(),
        AgentEvent::ModelResponse(r) => {
            let ghost rv = r;
            match run_turn(messages, r) {
                Err(e) => {
                    state.phase = AgentPhase::Done;
                    proof {
                        if rv is Ok {
                            lemma_push_view(m0, rv->Ok_0);
                        }
                    }
                    AgentAction::Fail(e)
                },
                Ok(TurnOutcome::FinalText(t)) => {
                    state.phase = AgentPhase::Done;
                    proof {
                        lemma_push_view(m0, rv->Ok_0);
                    }
                    AgentAction::Finish(t)
                },
                Ok(TurnOutcome::ToolCalls(calls)) => {
                    proof {
                        lemma_push_view(m0, rv->Ok_0);
                    }
                    state.calls = calls;
                    state.next_call = 0;
                    state.continue_step()
                },
            }
        },
        AgentEvent::Arguments(r) => {
            let i = state.next_call;
            let result = parse_bash_call(&state.calls[i], r);
            match result {
                Err(e) => {
                    let id = state.calls[i].id.clone();
                    let m = Message::tool_result(id, e);
                    messages.push(m);
                    proof {
                        lemma_push_view(m0, m);
                    }
                    state.next_call = i + 1;
                    state.continue_step()
                },
                Ok(call) => {
                    let command = call.command.clone();
                    state.current = Some(call);
                    state.phase = AgentPhase::AwaitingApproval;
                    AgentAction::AskApproval(command)
                },
            }
        },
        AgentEvent::Answer(answer) => {
            let approved = is_approval(answer.as_str());
            match &state.current {
                Some(call) => {
                    if approved {
                        let command = call.command.clone();
                        state.phase = AgentPhase::Running;
                        AgentAction::RunCommand(command)
                    } else {
                        let m = denied_result(call);
                        messages.push(m);
                        proof {
                            lemma_push_view(m0, m);
                        }
                        state.next_call = state.next_call + 1;
                        state.continue_step()
                    }
                },
                None => AgentAction::Fail(String::new()),
            }
        },
        AgentEvent::Finished { exit_code, timed_out, stdout, stderr } => {
            match &state.current {
                Some(call) => {
                    let out = utf8_lossy(limit_output(&stdout).as_slice());
                    let err = utf8_lossy(limit_output(&stderr).as_slice());
                    let m = command_report(call, exit_code, timed_out, out.as_str(), err.as_str());
                    messages.push(m);
                    proof {
                        lemma_push_view(m0, m);
                    }
                    state.next_call = state.next_call + 1;
                    state.continue_step()
                },
                None => AgentAction::Fail(String::new()),
            }
        },
        AgentEvent::NotRun(error) => {
            match &state.current {
                Some(call) => {
                    let mut t = String::from_str("Could not run command: ");
                    t.append(error.as_str());
                    let m = Message::tool_result(call.tool_call_id.clone(), t);
                    messages.push(m);
                    proof {
                        lemma_push_view(m0, m);
                    }
                    state.next_call = state.next_call + 1;
                    state.continue_step()
                },
                None => AgentAction::Fail(String::new()),
            }
        },
    }
}

/// A command runs only after the user approved it: the only step that asks
/// to run a command is the one that takes an approving answer for the call
/// at hand, and the command is that call's.
pub proof fn lemma_commands_run_only_after_approval(
    s: AgentStateView,
    msgs: Seq<MessageView>,
    e: AgentEvent,
)
    requires
        agent_ready(s),
        expects(s, e),
    ensures
        agent_step_spec(s, msgs, e).2 is RunCommand ==> {
            &&& s.phase == AgentPhase::AwaitingApproval
            &&& e matches AgentEvent::Answer(answer) && approves(answer@)
            &&& agent_step_spec(s, msgs, e).2 == AgentActionView::RunCommand(s.current.unwrap().1)
        },
{
}

/// Each prompt asks the model at most `max_turns` times: a step asks the
/// model only by taking one more turn, never past the limit, and no step
/// lowers the count or changes the limit.
pub proof fn lemma_model_requests_are_bounded(
    s: AgentStateView,
    msgs: Seq<MessageView>,
    e: AgentEvent,
)
    requires
        agent_ready(s),
        expects(s, e),
    ensures
        ({
            let t = agent_step_spec(s, msgs, e).0;
            &&& t.max_turns == s.max_turns
            &&& s.turns_taken <= t.turns_taken <= t.max_turns
            &&& agent_step_spec(s, msgs, e).2 is AskModel <==> t.turns_taken == s.turns_taken + 1
        }),
{
}
/// The states, conversation and actions after taking `events` in turn from
/// the state `s` and the conversation `msgs`.
pub open spec fn agent_run(
    s: AgentStateView,
    msgs: Seq<MessageView>,
    events: Seq<AgentEvent>,
) -> (AgentStateView, Seq<MessageView>, Seq<AgentActionView>)
    decreases events.len(),
{
    if events.len() == 0 {
        (s, msgs, Seq::empty())
    } else {
        let (t, m, actions) = agent_run(s, msgs, events.drop_last());
        let (t2, m2, a) = agent_step_spec(t, m, events.last());
        (t2, m2, actions.push(a))
    }
}

/// Whether each of `events` is the one that the state before it waits for.
pub open spec fn accepted_run(
    s: AgentStateView,
    msgs: Seq<MessageView>,
    events: Seq<AgentEvent>,
) -> bool
    decreases events.len(),
{
    events.len() == 0 || (accepted_run(s, msgs, events.drop_last()) && expects(
        agent_run(s, msgs, events.drop_last()).0,
        events.last(),
    ))
}

/// How many of `actions` ask the model.
pub open spec fn model_requests(actions: Seq<AgentActionView>) -> nat
    decreases actions.len(),
{
    if actions.len() == 0 {
        0
    } else {
        model_requests(actions.drop_last()) + if actions.last() is AskModel {
            1nat
        } else {
            0nat
        }
    }
}

proof fn lemma_run_counts(s: AgentStateView, msgs: Seq<MessageView>, events: Seq<AgentEvent>)
    requires
        agent_ready(s),
        accepted_run(s, msgs, events),
    ensures
        agent_ready(agent_run(s, msgs, events).0),
        agent_run(s, msgs, events).0.max_turns == s.max_turns,
        agent_run(s, msgs, events).0.turns_taken == s.turns_taken + model_requests(
            agent_run(s, msgs, events).2,
        ),
        agent_run(s, msgs, events).2.len() == events.len(),
    decreases events.len(),
{
    if events.len() > 0 {
        let prev = agent_run(s, msgs, events.drop_last());
        lemma_run_counts(s, msgs, events.drop_last());
        lemma_model_requests_are_bounded(prev.0, prev.1, events.last());
        lemma_step_keeps_ready(prev.0, prev.1, events.last());
        let actions = agent_run(s, msgs, events).2;
        assert(actions.drop_last() == prev.2);
    }
}

proof fn lemma_step_keeps_ready(s: AgentStateView, msgs: Seq<MessageView>, e: AgentEvent)
    requires
        agent_ready(s),
        expects(s, e),
    ensures
        agent_ready(agent_step_spec(s, msgs, e).0),
{
}

proof fn lemma_run_prefix(
    s: AgentStateView,
    msgs: Seq<MessageView>,
    events: Seq<AgentEvent>,
    i: int,
)
    requires
        0 <= i < events.len(),
    ensures
        agent_run(s, msgs, events).2.len() == events.len(),
        agent_run(s, msgs, events).2[i] == agent_step_spec(
            agent_run(s, msgs, events.take(i)).0,
            agent_run(s, msgs, events.take(i)).1,
            events[i],
        ).2,
        accepted_run(s, msgs, events) ==> accepted_run(s, msgs, events.take(i)) && expects(
            agent_run(s, msgs, events.take(i)).0,
            events[i],
        ),
    decreases events.len(),
{
    let prev = events.drop_last();
    if i == events.len() - 1 {
        assert(events.take(i) == prev);
        if events.len() > 1 {
            lemma_run_prefix(s, msgs, prev, 0);
        }
        lemma_run_length(s, msgs, prev);
    } else {
        lemma_run_prefix(s, msgs, prev, i);
        assert(prev.take(i) == events.take(i));
        assert(prev[i] == events[i]);
        lemma_run_length(s, msgs, prev);
    }
}

proof fn lemma_run_length(s: AgentStateView, msgs: Seq<MessageView>, events: Seq<AgentEvent>)
    ensures
        agent_run(s, msgs, events).2.len() == events.len(),
    decreases events.len(),
{
    if events.len() > 0 {
        lemma_run_length(s, msgs, events.drop_last());
    }
}

/// Over a whole prompt: from a fresh state for a limit of `max_turns`, any
/// run of accepted events asks the model at most `max_turns` times, and
/// every command it runs is run by the step that took the user's approving
/// answer for that very call: the event there is an answer that approves,
/// and the command is the one of the call that answer was asked about.
pub proof fn lemma_prompt_run_is_bounded_and_approved(
    max_turns: nat,
    msgs: Seq<MessageView>,
    events: Seq<AgentEvent>,
)
    requires
        accepted_run(fresh_agent(max_turns), msgs, events),
    ensures
        model_requests(agent_run(fresh_agent(max_turns), msgs, events).2) <= max_turns,
        forall|i: int|
            0 <= i < events.len() && #[trigger] agent_run(fresh_agent(max_turns), msgs, events).2[i] is RunCommand
                ==> {
                let before = agent_run(fresh_agent(max_turns), msgs, events.take(i)).0;
                &&& before.phase == AgentPhase::AwaitingApproval
                &&& events[i] matches AgentEvent::Answer(answer) && approves(answer@)
                &&& agent_run(fresh_agent(max_turns), msgs, events).2[i]
                    == AgentActionView::RunCommand(before.current.unwrap().1)
            },
{
    let s = fresh_agent(max_turns);
    lemma_run_counts(s, msgs, events);
    assert forall|i: int|
        0 <= i < events.len() && #[trigger] agent_run(s, msgs, events).2[i] is RunCommand implies {
        let before = agent_run(s, msgs, events.take(i)).0;
        &&& before.phase == AgentPhase::AwaitingApproval
        &&& events[i] matches AgentEvent::Answer(answer) && approves(answer@)
        &&& agent_run(s, msgs, events).2[i] == AgentActionView::RunCommand(
            before.current.unwrap().1,
        )
    } by {
        lemma_run_prefix(s, msgs, events, i);
        let before = agent_run(s, msgs, events.take(i));
        lemma_run_counts(s, msgs, events.take(i));
        lemma_commands_run_only_after_approval(before.0, before.1, events[i]);
    }
}

/// The state of a prompt not yet started (`AgentState::new`).
pub open spec fn fresh_agent(max_turns: nat) -> AgentStateView {
    AgentStateView {
        max_turns,
        turns_taken: 0,
        phase: AgentPhase::Idle,
        calls: Seq::empty(),
        next_call: 0,
        current: None,
    }
}

/// Once the calls of a model turn are under way, the next action reads the
/// arguments of the call the state stands at, and nothing else: the calls
/// and the place among them are kept.
pub proof fn lemma_continue_reads_the_call_at_hand(s: AgentStateView)
    ensures
        s.next_call < s.calls.len() ==> {
            let (t, a) = continue_spec(s);
            &&& a == AgentActionView::ReadArguments(s.calls[s.next_call as int].arguments)
            &&& t.phase == AgentPhase::ReadingArguments
            &&& t.calls == s.calls
            &&& t.next_call == s.next_call
        },
{
}

/// The tool calls of a model turn are taken one at a time, in order: a turn
/// with tool calls starts at its first call; every other step keeps the
/// calls, and moves on by exactly one call when it deals with the call at
/// hand (a finished or failed command, and an argument error or a denial);
/// and whenever arguments are to be read next, they are those of the call
/// the new state stands at.
pub proof fn lemma_calls_are_taken_in_order(s: AgentStateView, msgs: Seq<MessageView>, e: AgentEvent)
    requires
        agent_ready(s),
        expects(s, e),
    ensures
        ({
            let (t, m, a) = agent_step_spec(s, msgs, e);
            &&& t.phase == AgentPhase::ReadingArguments ==> t.next_call < t.calls.len() && a
                == AgentActionView::ReadArguments(t.calls[t.next_call as int].arguments)
            &&& e matches AgentEvent::ModelResponse(r) ==> (r matches Ok(resp) ==> (
            resp.tool_calls@.len() > 0 ==> {
                &&& t.calls == tool_calls_view(resp.tool_calls@)
                &&& t.next_call == 0
                &&& a == AgentActionView::ReadArguments(resp.tool_calls@[0]@.arguments)
            }))
            &&& !(e is ModelResponse) ==> t.calls == s.calls
            &&& (e is Finished || e is NotRun) ==> t.next_call == s.next_call + 1
            &&& (e is Arguments || e is Answer) ==> (t.next_call == s.next_call || t.next_call
                == s.next_call + 1)
            &&& (e is Arguments || e is Answer) ==> (t.next_call == s.next_call <==> m == msgs)
        }),
{
    lemma_step_keeps_ready(s, msgs, e);
    let (t, m, a) = agent_step_spec(s, msgs, e);
    if e is Arguments || e is Answer {
        assert(m == msgs || m.len() == msgs.len() + 1);
        if m.len() == msgs.len() + 1 {
            assert(m != msgs);
        }
    }
    if let AgentEvent::ModelResponse(r) = e {
        if let Ok(resp) = r {
            if resp.tool_calls@.len() > 0 {
                assert(tool_calls_view(resp.tool_calls@)[0] == resp.tool_calls@[0]@);
            }
        }
    }
}

/// A model response with tool calls yields those calls, whatever text comes
/// with them; a response without tool calls yields its text; one with
/// neither is an error.
pub proof fn lemma_tool_calls_come_first(response: Message)
    ensures
        response.tool_calls@.len() > 0 ==> turn_spec(response) == Ok::<
            TurnOutcomeView,
            Seq<char>,
        >(TurnOutcomeView::ToolCalls(tool_calls_view(response.tool_calls@))),
        response.tool_calls@.len() == 0 ==> (response.content matches Some(c) ==> turn_spec(
            response,
        ) == Ok::<TurnOutcomeView, Seq<char>>(TurnOutcomeView::FinalText(c@))),
        response.tool_calls@.len() == 0 && response.content is None ==> turn_spec(response) is Err,
{
}

/// Whether the call at hand, when there is one, is the call the state
/// stands at.
pub open spec fn holds_call_at_hand(s: AgentStateView) -> bool {
    s.current matches Some(c) ==> s.next_call < s.calls.len() && c.0 == s.calls[s.next_call as int].id
}

/// Every tool result answers the call it is about: a step that adds a
/// message to the conversation after a tool call adds one tool result, under
/// the id of the call the state stood at, and the call at hand stays the one
/// the state stands at (as in a fresh state, which has none).
pub proof fn lemma_results_answer_their_call(s: AgentStateView, msgs: Seq<MessageView>, e: AgentEvent)
    requires
        agent_ready(s),
        expects(s, e),
        holds_call_at_hand(s),
    ensures
        ({
            let (t, m, a) = agent_step_spec(s, msgs, e);
            &&& holds_call_at_hand(t)
            &&& !(e is ModelResponse) && !(e is Start) && m != msgs ==> {
                &&& m.len() == msgs.len() + 1
                &&& m.drop_last() == msgs
                &&& m.last().role == "tool"@
                &&& m.last().tool_call_id == Some(s.calls[s.next_call as int].id)
            }
        }),
        holds_call_at_hand(fresh_agent(s.max_turns)),
{
    let (t, m, a) = agent_step_spec(s, msgs, e);
    reveal_strlit("tool");
    match e {
        AgentEvent::Arguments(r) => {
            let c = s.calls[s.next_call as int];
            lemma_bash_calls_keep_id_and_command(c, text_result(r));
            if m != msgs {
                assert(m == msgs.push(m.last()));
                assert(m.drop_last() =~= msgs);
            }
        },
        AgentEvent::Answer(_) | AgentEvent::Finished { .. } | AgentEvent::NotRun(_) => {
            if m != msgs {
                assert(m.drop_last() =~= msgs);
            }
        },
        _ => {},
    }
}

/// When the calls of the last turn are all dealt with, the model is asked
/// again, using up one more turn, as long as turns remain; only when none
/// remains does the prompt fail, with the turn-limit error.
pub proof fn lemma_turns_run_out_only_at_the_limit(s: AgentStateView)
    requires
        s.next_call >= s.calls.len(),
    ensures
        s.turns_taken < s.max_turns ==> continue_spec(s) == (
            AgentStateView {
                phase: AgentPhase::AwaitingModel,
                current: None,
                turns_taken: s.turns_taken + 1,
                ..s
            },
            AgentActionView::AskModel,
        ),
        s.turns_taken >= s.max_turns ==> continue_spec(s).1 == AgentActionView::Fail(
            "The agent stopped after reaching the maximum of "@ + decimal(s.max_turns) + " turns"@,
        ) && continue_spec(s).0.phase == AgentPhase::Done,
{
}

} // verus!
