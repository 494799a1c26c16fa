//! The decisions of the agent loop, as a state machine.
//!
//! A run alternates decisions with outside work: polling the steering and
//! follow-up queues, streaming an assistant response, preparing and running
//! tools. [`AgentLoop`] takes those decisions: each step consumes what the
//! outside work produced, and returns the events to report and the next work
//! to do ([`LoopRequest`]). Whoever drives it performs that work and hands the
//! outcome to the matching step, until the request is `Finished`.
use vstd::prelude::*;
use vstd::pervasive::unreached;
use vstd::string::*;

use crate::agent::protocol::{
    ProtocolState, lemma_protocol_run_concat, lemma_protocol_run_one, lemma_protocol_run_two,
    protocol_run, protocol_step,
};
use crate::agent::tool_calls::{
    FinalizedToolCallOutcome, answers_call, blocked_outcome, blocked_result,
    after_applied, batch_terminates, create_tool_result_message, filter_tool_calls, find_tool,
    finalize_executed_tool_call, has_sequential_tool, is_result_message,
    lemma_first_tool_named, lemma_result_answers_call, lemma_tool_calls_in_are_calls,
    not_found_outcome, resolve_tool,
    should_terminate_tool_batch, terminate_flags, tool_calls_of, tool_not_found, tools_view,
    uses_sequential_tool,
};
use crate::agent::types::{
    AfterToolCallResult, AgentContext, AgentEvent, AgentEventView, AgentMessage,
    AgentMessageView, AgentToolInfo, AgentToolResult, AgentToolResultView, BeforeToolCallResult,
    ToolExecutionMode, create_error_tool_result,
};
use crate::json::clone_json;
use crate::message::{ContentBlock, ContentBlockView, Message, MessageView, StopReason};
use crate::stream::{AssistantMessageEvent, EventView, terminal_message};
use crate::types::{Context, Tool, Usage, zero_usage};

verus! {

/// The outside work an agent loop asks for next.
#[derive(Debug)]
pub enum LoopRequest {
    /// Poll the steering queue; hand its messages to `on_steering`.
    SteeringMessages,
    /// Poll the follow-up queue; hand its messages to `on_follow_up`.
    FollowUpMessages,
    /// Open an assistant response stream for the current context (see
    /// `llm_context`); hand each of its events to `on_stream_event`, and
    /// call `on_stream_end` if it closes first.
    StreamAssistant,
    /// Hand the next event of the open stream to `on_stream_event`, or call
    /// `on_stream_end` if it has closed.
    NextStreamEvent,
    /// Let the tool at `tool_index` prepare `arguments` for the call being
    /// preflighted, ask the before-call hook about the prepared arguments, and
    /// hand both to `on_tool_prepared`.
    PrepareTool { tool_index: usize, arguments: serde_json::Value },
    /// Run the tool at `tool_index` on `arguments`, ask the after-call hook
    /// about its result, and hand both to `on_tool_executed`.
    ExecuteTool { tool_index: usize, tool_call_id: String, arguments: serde_json::Value },
    /// Run the prepared calls of the turn concurrently, each tool on its
    /// arguments; ask the after-call hook about each result, in the order of
    /// `executions`; hand the results and the hooks' answers, in that order,
    /// to `on_tools_executed`.
    ExecuteTools { executions: Vec<ToolExecution> },
    /// The run is over; its new messages are in `new_messages`.
    Finished,
}

/// A prepared tool call to run: the tool at `tool_index` on `arguments`.
/// `position` is the call's place among the turn's tool calls.
#[derive(Debug)]
pub struct ToolExecution {
    pub position: usize,
    pub tool_index: usize,
    pub tool_call_id: String,
    pub arguments: serde_json::Value,
}

/// What preflighting a call of a concurrent batch gave: its error result at
/// once, or the tool and prepared arguments it runs with.
enum Preflight {
    Immediate(AgentToolResult),
    Prepared { tool_index: usize, arguments: serde_json::Value },
}

/// The value of a preflighted call.
pub enum PreflightView {
    Immediate(AgentToolResultView),
    Prepared { tool_index: usize, arguments: serde_json::Value },
}

impl View for Preflight {
    type V = PreflightView;

    closed spec fn view(&self) -> PreflightView {
        match self {
            Preflight::Immediate(r) => PreflightView::Immediate(r@),
            Preflight::Prepared { tool_index, arguments } => PreflightView::Prepared {
                tool_index: *tool_index,
                arguments: *arguments,
            },
        }
    }
}

/// The events to report and the work to do next.
#[derive(Debug)]
pub struct LoopStep {
    pub events: Vec<AgentEvent>,
    pub request: LoopRequest,
}

/// Where the loop waits.
#[derive(Debug, Clone, Copy, PartialEq, Eq, Structural)]
pub enum LoopPhase {
    AwaitSteering,
    AwaitFollowUp,
    Streaming,
    AwaitPrepared,
    AwaitExecuted,
    AwaitExecutedAll,
    Finished,
}

/// `MessageStart` then `MessageEnd` for each message, in order.
pub open spec fn message_pairs(ms: Seq<AgentMessageView>) -> Seq<AgentEventView>
    decreases ms.len(),
{
    if ms.len() == 0 {
        Seq::empty()
    } else {
        message_pairs(ms.drop_last()) + seq![
            AgentEventView::MessageStart { message: ms.last() },
            AgentEventView::MessageEnd { message: ms.last() },
        ]
    }
}

/// Reporting messages opened and closed inside an open turn keeps the turn open.
pub proof fn lemma_message_pairs_protocol(ms: Seq<AgentMessageView>)
    ensures
        protocol_run(
            ProtocolState::Running { turn_open: true, message_open: false },
            message_pairs(ms),
        ) == (ProtocolState::Running { turn_open: true, message_open: false }),
    decreases ms.len(),
{
    let s = ProtocolState::Running { turn_open: true, message_open: false };
    if ms.len() == 0 {
    } else {
        lemma_message_pairs_protocol(ms.drop_last());
        let pair = seq![
            AgentEventView::MessageStart { message: ms.last() },
            AgentEventView::MessageEnd { message: ms.last() },
        ];
        lemma_protocol_run_concat(s, message_pairs(ms.drop_last()), pair);
        lemma_protocol_run_two(s, pair[0], pair[1]);
    }
}

/// Whether an assistant message ends the run: it stopped on an error or was aborted.
pub open spec fn ends_run(m: MessageView) -> bool {
    match m {
        MessageView::Assistant { stop_reason, .. } => stop_reason == StopReason::Error
            || stop_reason == StopReason::Aborted,
        _ => false,
    }
}

/// Whether a reported event keeps the promise on tool results: a `TurnEnd`
/// carries, in order, one result message answering each tool call of its
/// assistant message, or none when that message ended the run.
pub open spec fn turn_end_ok(e: AgentEventView) -> bool {
    match e {
        AgentEventView::TurnEnd { message, tool_results } => match message {
            AgentMessageView::Llm(m) => if ends_run(m) {
                tool_results.len() == 0
            } else {
                &&& tool_results.len() == tool_calls_of(m).len()
                &&& forall|k: int|
                    0 <= k < tool_results.len() ==> answers_call(
                        #[trigger] tool_results[k],
                        tool_calls_of(m)[k],
                    )
            },
            AgentMessageView::Custom(_) => false,
        },
        _ => true,
    }
}

/// Every `TurnEnd` among the events keeps the promise on tool results.
pub open spec fn turn_ends_ok(evs: Seq<AgentEventView>) -> bool {
    forall|i: int| 0 <= i < evs.len() ==> turn_end_ok(#[trigger] evs[i])
}

proof fn lemma_turn_ends_concat(a: Seq<AgentEventView>, b: Seq<AgentEventView>)
    requires
        turn_ends_ok(a),
        turn_ends_ok(b),
    ensures
        turn_ends_ok(a + b),
{
    assert forall|i: int| 0 <= i < (a + b).len() implies turn_end_ok(#[trigger] (a + b)[i]) by {
        if i < a.len() {
            assert((a + b)[i] == a[i]);
        } else {
            assert((a + b)[i] == b[i - a.len()]);
        }
    }
}

proof fn lemma_turn_ends_two(a: AgentEventView, b: AgentEventView)
    requires
        turn_end_ok(a),
        turn_end_ok(b),
    ensures
        turn_ends_ok(seq![a, b]),
{
    let s = seq![a, b];
    assert forall|i: int| 0 <= i < 2 implies turn_end_ok(#[trigger] s[i]) by {
        if i == 0 {
        } else {
        }
    }
}

proof fn lemma_message_pairs_turn_ends(ms: Seq<AgentMessageView>)
    ensures
        turn_ends_ok(message_pairs(ms)),
    decreases ms.len(),
{
    if ms.len() > 0 {
        lemma_message_pairs_turn_ends(ms.drop_last());
        lemma_turn_ends_two(
            AgentEventView::MessageStart { message: ms.last() },
            AgentEventView::MessageEnd { message: ms.last() },
        );
        lemma_turn_ends_concat(
            message_pairs(ms.drop_last()),
            seq![
                AgentEventView::MessageStart { message: ms.last() },
                AgentEventView::MessageEnd { message: ms.last() },
            ],
        );
    }
}

/// The event that opens a tool call's execution.
pub open spec fn tool_start_event(call: ContentBlockView) -> AgentEventView {
    AgentEventView::ToolExecutionStart {
        tool_call_id: call->ToolCall_id,
        tool_name: call->ToolCall_name,
        args: call->ToolCall_arguments,
    }
}

/// The events that close a tool call's execution: its end, with the
/// result's details and error flag, then its result message.
pub open spec fn tool_end_events(
    call: ContentBlockView,
    outcome: (AgentToolResultView, bool),
    msg: AgentMessageView,
) -> Seq<AgentEventView> {
    seq![
        AgentEventView::ToolExecutionEnd {
            tool_call_id: call->ToolCall_id,
            tool_name: call->ToolCall_name,
            result: outcome.0.details,
            is_error: outcome.1,
        },
        AgentEventView::MessageStart { message: msg },
        AgentEventView::MessageEnd { message: msg },
    ]
}

/// The events of the calls `from` to `to` of a batch, each opened and closed.
pub open spec fn batch_events(
    calls: Seq<ContentBlockView>,
    outcomes: Seq<(AgentToolResultView, bool)>,
    msgs: Seq<AgentMessageView>,
    from: int,
    to: int,
) -> Seq<AgentEventView>
    decreases to - from,
{
    if to <= from {
        Seq::empty()
    } else {
        batch_events(calls, outcomes, msgs, from, to - 1) + seq![tool_start_event(calls[to - 1])]
            + tool_end_events(calls[to - 1], outcomes[to - 1], msgs[to - 1])
    }
}

proof fn lemma_tool_end_events(
    call: ContentBlockView,
    outcome: (AgentToolResultView, bool),
    msg: AgentMessageView,
)
    ensures
        protocol_run(
            ProtocolState::Running { turn_open: true, message_open: false },
            tool_end_events(call, outcome, msg),
        ) == (ProtocolState::Running { turn_open: true, message_open: false }),
        turn_ends_ok(tool_end_events(call, outcome, msg)),
{
    let open = ProtocolState::Running { turn_open: true, message_open: false };
    let evs = tool_end_events(call, outcome, msg);
    assert(evs.drop_last() =~= seq![evs[0], evs[1]]);
    lemma_protocol_run_two(open, evs[0], evs[1]);
    assert forall|i: int| 0 <= i < 3 implies turn_end_ok(#[trigger] evs[i]) by {
        if i == 0 {
        } else if i == 1 {
        } else {
        }
    }
}

proof fn lemma_batch_events(
    calls: Seq<ContentBlockView>,
    outcomes: Seq<(AgentToolResultView, bool)>,
    msgs: Seq<AgentMessageView>,
    from: int,
    to: int,
)
    ensures
        protocol_run(
            ProtocolState::Running { turn_open: true, message_open: false },
            batch_events(calls, outcomes, msgs, from, to),
        ) == (ProtocolState::Running { turn_open: true, message_open: false }),
        turn_ends_ok(batch_events(calls, outcomes, msgs, from, to)),
    decreases to - from,
{
    let open = ProtocolState::Running { turn_open: true, message_open: false };
    if to > from {
        lemma_batch_events(calls, outcomes, msgs, from, to - 1);
        let a = batch_events(calls, outcomes, msgs, from, to - 1);
        let b = seq![tool_start_event(calls[to - 1])];
        let c = tool_end_events(calls[to - 1], outcomes[to - 1], msgs[to - 1]);
        lemma_protocol_run_concat(open, a + b, c);
        lemma_protocol_run_concat(open, a, b);
        lemma_protocol_run_one(open, b[0]);
        lemma_tool_end_events(calls[to - 1], outcomes[to - 1], msgs[to - 1]);
        assert(turn_ends_ok(b)) by {
            assert forall|i: int| 0 <= i < 1 implies turn_end_ok(#[trigger] b[i]) by {
                assert(i == 0);
            }
        }
        lemma_turn_ends_concat(a, b);
        lemma_turn_ends_concat(a + b, c);
    }
}

/// The events that deliver a finished assistant message: `MessageStart`
/// unless the stream already opened it, then `MessageEnd`.
pub open spec fn delivery_events(opened: bool, m: AgentMessageView) -> Seq<AgentEventView> {
    if opened {
        seq![AgentEventView::MessageEnd { message: m }]
    } else {
        seq![AgentEventView::MessageStart { message: m }, AgentEventView::MessageEnd { message: m }]
    }
}

/// The transcript once a finished assistant message is delivered: it
/// replaces the streamed message, or is appended when none was streamed.
pub open spec fn delivered_context(
    ctx: Seq<AgentMessageView>,
    opened: bool,
    m: AgentMessageView,
) -> Seq<AgentMessageView> {
    if opened {
        ctx.update(ctx.len() - 1, m)
    } else {
        ctx.push(m)
    }
}

/// The streamed message an update event carries; none for `Start`, `Done` and `Error`.
pub open spec fn update_partial(e: EventView) -> Option<MessageView> {
    match e {
        EventView::TextStart { partial, .. } => Some(partial),
        EventView::TextDelta { partial, .. } => Some(partial),
        EventView::TextEnd { partial, .. } => Some(partial),
        EventView::ThinkingStart { partial, .. } => Some(partial),
        EventView::ThinkingDelta { partial, .. } => Some(partial),
        EventView::ThinkingEnd { partial, .. } => Some(partial),
        EventView::ToolCallStart { partial, .. } => Some(partial),
        EventView::ToolCallDelta { partial, .. } => Some(partial),
        EventView::ToolCallEnd { partial, .. } => Some(partial),
        _ => None,
    }
}

/// The state of an agent run.
pub struct AgentLoop {
    context: AgentContext,
    new_messages: Vec<AgentMessage>,
    first_run: bool,
    has_more_tool_calls: bool,
    tool_execution: ToolExecutionMode,
    phase: LoopPhase,
    partial_message: Option<Message>,
    added_partial: bool,
    assistant_message: Option<Message>,
    tool_calls: Vec<ContentBlock>,
    call_index: usize,
    tool_index: usize,
    finalized: Vec<FinalizedToolCallOutcome>,
    tool_results: Vec<AgentMessage>,
    parallel_batch: bool,
    preflight: Vec<Preflight>,
    trace: Ghost<Seq<AgentEventView>>,
    initial: Ghost<Seq<AgentMessageView>>,
    well_behaved: Ghost<bool>,
}

impl AgentLoop {
    /// Every event reported so far, in order.
    pub closed spec fn trace(&self) -> Seq<AgentEventView> {
        self.trace@
    }

    /// Where the loop waits.
    pub closed spec fn phase(&self) -> LoopPhase {
        self.phase
    }

    /// The messages of the context when the run began, before its prompts.
    pub closed spec fn initial_messages(&self) -> Seq<AgentMessageView> {
        self.initial@
    }

    /// The context's messages now.
    pub closed spec fn context_messages(&self) -> Seq<AgentMessageView> {
        self.context.messages.deep_view()
    }

    /// The messages the run has added so far.
    pub closed spec fn run_messages(&self) -> Seq<AgentMessageView> {
        self.new_messages.deep_view()
    }

    /// Whether no turn has begun since the run started.
    pub closed spec fn is_first_turn(&self) -> bool {
        self.first_run
    }

    /// Whether the last turn's tool calls asked for another turn.
    pub closed spec fn more_tool_calls(&self) -> bool {
        self.has_more_tool_calls
    }

    /// Whether every assistant stream so far was well formed: it opened its
    /// message at most once and delivered a message.
    pub closed spec fn streams_well_formed(&self) -> bool {
        self.well_behaved@
    }

    /// The assistant message being streamed, if one has started.
    pub closed spec fn streamed_partial(&self) -> Option<MessageView> {
        self.partial_message.deep_view()
    }

    /// The protocol state the loop's phase stands in.
    pub closed spec fn expected_protocol(&self) -> ProtocolState {
        match self.phase {
            LoopPhase::AwaitSteering => ProtocolState::Running {
                turn_open: self.first_run,
                message_open: false,
            },
            LoopPhase::AwaitFollowUp => ProtocolState::Running {
                turn_open: false,
                message_open: false,
            },
            LoopPhase::Streaming => ProtocolState::Running {
                turn_open: true,
                message_open: self.added_partial,
            },
            LoopPhase::Finished => ProtocolState::Ended,
            _ => ProtocolState::Running { turn_open: true, message_open: false },
        }
    }

    /// The tools the context offers.
    pub closed spec fn tools(&self) -> Option<Seq<AgentToolInfo>> {
        tools_view(self.context.tools)
    }

    /// How the loop runs a turn's tool calls.
    pub closed spec fn tool_mode(&self) -> ToolExecutionMode {
        self.tool_execution
    }

    /// The assistant message of the tool batch that runs, or ran last.
    pub closed spec fn batch_assistant(&self) -> Option<MessageView> {
        self.assistant_message.deep_view()
    }

    /// The tool calls of that batch, in order.
    pub closed spec fn batch_calls(&self) -> Seq<ContentBlockView> {
        self.tool_calls.deep_view()
    }

    /// How many calls of that batch are finished.
    pub closed spec fn batch_index(&self) -> int {
        self.call_index as int
    }

    /// The result and error flag of each finished call.
    pub closed spec fn batch_outcomes(&self) -> Seq<(AgentToolResultView, bool)> {
        self.finalized@.map_values(|f: FinalizedToolCallOutcome| (f.result@, f.is_error))
    }

    /// The result message of each finished call.
    pub closed spec fn batch_messages(&self) -> Seq<AgentMessageView> {
        self.tool_results.deep_view()
    }

    /// Whether the batch's calls run concurrently.
    pub closed spec fn batch_is_parallel(&self) -> bool {
        self.parallel_batch
    }

    /// What preflighting gave for each call of a concurrent batch, so far.
    pub closed spec fn batch_preflight(&self) -> Seq<PreflightView> {
        self.preflight@.map_values(|p: Preflight| p@)
    }

    /// The tool batch answers the assistant message's calls in order, so far.
    closed spec fn batch_core(&self) -> bool {
        let calls = self.tool_calls.deep_view();
        &&& self.assistant_message is Some
        &&& calls == tool_calls_of(self.assistant_message->0@)
        &&& !ends_run(self.assistant_message->0@)
        &&& self.call_index <= calls.len()
        &&& self.tool_results.len() == self.call_index
        &&& self.finalized.len() == self.call_index
        &&& forall|k: int|
            0 <= k < self.call_index ==> {
                &&& (#[trigger] self.finalized@[k]).tool_call@ == calls[k]
                &&& is_result_message(
                    self.tool_results@[k]@,
                    calls[k],
                    self.finalized@[k].result@,
                    self.finalized@[k].is_error,
                )
            }
    }

    /// A call of the batch waits for its tool, which is found.
    closed spec fn batch_ok(&self) -> bool {
        &&& self.batch_core()
        &&& self.call_index < self.tool_calls.len()
        &&& resolve_tool(
            tools_view(self.context.tools),
            self.tool_calls@[self.call_index as int]@->ToolCall_name,
        ) == Some(self.tool_index as int)
    }

    /// A call of a concurrent batch waits to be prepared, its tool found; no
    /// call of the batch is finished yet.
    closed spec fn preflight_ok(&self) -> bool {
        &&& self.batch_core()
        &&& self.call_index == 0
        &&& self.preflight.len() < self.tool_calls.len()
        &&& resolve_tool(
            tools_view(self.context.tools),
            self.tool_calls@[self.preflight.len() as int]@->ToolCall_name,
        ) == Some(self.tool_index as int)
    }

    /// The loop's state is consistent: its reported events are where its phase
    /// says, and its context is the initial messages followed by the run's
    /// messages (and the message being streamed), as long as every stream was
    /// well formed.
    pub closed spec fn wf(&self) -> bool {
        &&& self.well_behaved@ ==> protocol_run(ProtocolState::Idle, self.trace@)
            == self.expected_protocol()
        &&& turn_ends_ok(self.trace@)
        &&& self.phase == LoopPhase::Finished ==> self.trace@.len() > 0 && self.trace@.last()
            == (AgentEventView::AgentEnd { messages: self.new_messages.deep_view() })
        &&& self.phase == LoopPhase::Streaming && self.added_partial
            ==> self.context.messages.len() > 0
        &&& self.phase == LoopPhase::AwaitFollowUp ==> !self.first_run
        &&& self.first_run ==> self.has_more_tool_calls
        &&& self.phase == LoopPhase::Streaming ==> !self.first_run && (self.added_partial
            <==> self.partial_message is Some)
        &&& self.phase == LoopPhase::AwaitPrepared ==> !self.first_run && if self.parallel_batch {
            self.preflight_ok()
        } else {
            self.batch_ok()
        }
        &&& self.phase == LoopPhase::AwaitExecuted ==> !self.first_run && !self.parallel_batch
            && self.batch_ok()
        &&& self.phase == LoopPhase::AwaitExecutedAll ==> !self.first_run && self.parallel_batch
            && self.batch_core() && self.call_index == 0 && self.preflight.len()
            == self.tool_calls.len()
        &&& self.well_behaved@ ==> if self.phase == LoopPhase::Streaming && self.added_partial {
            self.context.messages.deep_view() == self.initial@ + self.new_messages.deep_view()
                + seq![AgentMessageView::Llm(self.partial_message.deep_view()->0)]
        } else {
            self.context.messages.deep_view() == self.initial@ + self.new_messages.deep_view()
        }
    }

    /// What running the tool batch on from call `from` did. The calls from
    /// `from` on whose tool is not found got an error result at once; then
    /// either the next call, whose tool is found, waits to be prepared, or no
    /// call is left: the batch's result messages joined the transcript and
    /// the run's messages (`ctx0` and `run0` before) and the turn ended.
    /// `evs` are the events reported, `req` the request returned.
    pub open spec fn batch_advanced(
        &self,
        from: int,
        run0: Seq<AgentMessageView>,
        ctx0: Seq<AgentMessageView>,
        evs: Seq<AgentEventView>,
        req: LoopRequest,
    ) -> bool {
        let calls = self.batch_calls();
        let outcomes = self.batch_outcomes();
        let msgs = self.batch_messages();
        let i = self.batch_index();
        &&& 0 <= from <= i <= calls.len()
        &&& outcomes.len() == i
        &&& msgs.len() == i
        &&& forall|k: int|
            0 <= k < i ==> is_result_message(
                #[trigger] msgs[k],
                calls[k],
                outcomes[k].0,
                outcomes[k].1,
            )
        &&& forall|k: int|
            from <= k < i ==> {
                &&& resolve_tool(self.tools(), (#[trigger] calls[k])->ToolCall_name) is None
                &&& outcomes[k] == not_found_outcome(calls[k]->ToolCall_name)
            }
        &&& if i < calls.len() {
            &&& evs == batch_events(calls, outcomes, msgs, from, i) + seq![
                tool_start_event(calls[i]),
            ]
            &&& (req matches LoopRequest::PrepareTool { tool_index, arguments } && resolve_tool(
                self.tools(),
                calls[i]->ToolCall_name,
            ) == Some(tool_index as int) && arguments == calls[i]->ToolCall_arguments)
            &&& self.phase() == LoopPhase::AwaitPrepared
            &&& self.run_messages() == run0
            &&& self.context_messages() == ctx0
        } else {
            &&& evs == batch_events(calls, outcomes, msgs, from, i) + seq![
                AgentEventView::TurnEnd {
                    message: AgentMessageView::Llm(self.batch_assistant()->0),
                    tool_results: msgs,
                },
            ]
            &&& req is SteeringMessages
            &&& self.phase() == LoopPhase::AwaitSteering
            &&& self.more_tool_calls() == !batch_terminates(
                outcomes.map_values(|o: (AgentToolResultView, bool)| o.0.terminate),
            )
            &&& self.run_messages() == run0 + msgs
            &&& self.context_messages() == ctx0 + msgs
        }
    }

    /// What the loop did once a turn's assistant message `m` was delivered.
    /// A message that ends the run ends the turn and the run; one without
    /// tool calls ends the turn; otherwise its calls run as a batch, which is
    /// preflighted as a whole when its calls run concurrently. `run0` are the run's
    /// messages before `m`, `ctx0` the transcript with `m` delivered, `evs`
    /// the events reported after `m`'s delivery, `req` the request returned.
    pub open spec fn message_handled(
        &self,
        run0: Seq<AgentMessageView>,
        ctx0: Seq<AgentMessageView>,
        m: MessageView,
        evs: Seq<AgentEventView>,
        req: LoopRequest,
    ) -> bool {
        let am = AgentMessageView::Llm(m);
        if ends_run(m) {
            &&& evs == seq![
                AgentEventView::TurnEnd { message: am, tool_results: Seq::empty() },
                AgentEventView::AgentEnd { messages: run0.push(am) },
            ]
            &&& req is Finished
            &&& self.phase() == LoopPhase::Finished
            &&& self.run_messages() == run0.push(am)
            &&& self.context_messages() == ctx0
        } else if tool_calls_of(m).len() == 0 {
            &&& evs == seq![AgentEventView::TurnEnd { message: am, tool_results: Seq::empty() }]
            &&& req is SteeringMessages
            &&& self.phase() == LoopPhase::AwaitSteering
            &&& !self.more_tool_calls()
            &&& self.run_messages() == run0.push(am)
            &&& self.context_messages() == ctx0
        } else if self.tool_mode() != ToolExecutionMode::Sequential && !uses_sequential_tool(
            self.tools(),
            tool_calls_of(m),
        ) {
            &&& self.batch_assistant() == Some(m)
            &&& self.batch_calls() == tool_calls_of(m)
            &&& self.preflight_advanced(0, run0.push(am), ctx0, evs, req)
        } else {
            &&& self.batch_assistant() == Some(m)
            &&& self.batch_calls() == tool_calls_of(m)
            &&& !self.batch_is_parallel()
            &&& self.batch_advanced(0, run0.push(am), ctx0, evs, req)
        }
    }

    /// What preflighting a concurrent batch on from call `from` did. Each call
    /// reported its start; those from `from` on whose tool is not found got
    /// an error result; then either the next call, whose tool is found, waits
    /// to be prepared, or every call is preflighted and the calls that run are
    /// handed out together, in the order of the batch. No call is finished
    /// yet and the transcript is as it was (`ctx0`, with the run's messages
    /// `run0`). `evs` are the events reported, `req` the request returned.
    pub open spec fn preflight_advanced(
        &self,
        from: int,
        run0: Seq<AgentMessageView>,
        ctx0: Seq<AgentMessageView>,
        evs: Seq<AgentEventView>,
        req: LoopRequest,
    ) -> bool {
        let calls = self.batch_calls();
        let pf = self.batch_preflight();
        let i = pf.len() as int;
        &&& 0 <= from <= i <= calls.len()
        &&& self.batch_is_parallel()
        &&& self.batch_index() == 0
        &&& self.batch_outcomes().len() == 0
        &&& self.batch_messages().len() == 0
        &&& forall|k: int|
            from <= k < i ==> {
                &&& resolve_tool(self.tools(), (#[trigger] calls[k])->ToolCall_name) is None
                &&& pf[k] == PreflightView::Immediate(
                    not_found_outcome(calls[k]->ToolCall_name).0,
                )
            }
        &&& self.run_messages() == run0
        &&& self.context_messages() == ctx0
        &&& if i < calls.len() {
            &&& evs == tool_starts(calls, from, i + 1)
            &&& (req matches LoopRequest::PrepareTool { tool_index, arguments } && resolve_tool(
                self.tools(),
                calls[i]->ToolCall_name,
            ) == Some(tool_index as int) && arguments == calls[i]->ToolCall_arguments)
            &&& self.phase() == LoopPhase::AwaitPrepared
        } else {
            &&& evs == tool_starts(calls, from, i)
            &&& (req matches LoopRequest::ExecuteTools { executions } && runs_calls(
                executions@,
                pf,
                calls,
                prepared_positions(pf),
            ))
            &&& self.phase() == LoopPhase::AwaitExecutedAll
        }
    }

    /// What finishing a concurrent batch did: every call has its outcome and
    /// its result message, whose ends were reported in the order of the
    /// calls; the result messages joined the transcript and the run's
    /// messages (`ctx0` and `run0` before), and the turn ended. `evs` are the
    /// events reported, `req` the request returned.
    pub open spec fn batch_finished(
        &self,
        run0: Seq<AgentMessageView>,
        ctx0: Seq<AgentMessageView>,
        evs: Seq<AgentEventView>,
        req: LoopRequest,
    ) -> bool {
        let calls = self.batch_calls();
        let outcomes = self.batch_outcomes();
        let msgs = self.batch_messages();
        let n = calls.len() as int;
        &&& self.batch_index() == n
        &&& outcomes.len() == n
        &&& msgs.len() == n
        &&& forall|k: int|
            0 <= k < n ==> is_result_message(
                #[trigger] msgs[k],
                calls[k],
                outcomes[k].0,
                outcomes[k].1,
            )
        &&& evs == tool_ends(calls, outcomes, msgs, 0, n) + seq![
            AgentEventView::TurnEnd {
                message: AgentMessageView::Llm(self.batch_assistant()->0),
                tool_results: msgs,
            },
        ]
        &&& req is SteeringMessages
        &&& self.phase() == LoopPhase::AwaitSteering
        &&& self.more_tool_calls() == !batch_terminates(
            outcomes.map_values(|o: (AgentToolResultView, bool)| o.0.terminate),
        )
        &&& self.run_messages() == run0 + msgs
        &&& self.context_messages() == ctx0 + msgs
    }

    /// The context the loop works on.
    pub fn context(&self) -> (c: &AgentContext)
        ensures
            c.messages.deep_view() == self.context_messages(),
    {
        &self.context
    }

    /// The messages the run has added so far.
    pub fn new_messages(&self) -> (m: &Vec<AgentMessage>)
        ensures
            m.deep_view() == self.run_messages(),
    {
        &self.new_messages
    }

    /// The assistant message whose tool calls are being run.
    pub fn assistant_message(&self) -> (m: &Option<Message>)
        ensures
            m.deep_view() == self.batch_assistant(),
    {
        &self.assistant_message
    }

    /// The tool call being prepared or run.
    pub fn current_tool_call(&self) -> (c: Option<&ContentBlock>)
        ensures
            match c {
                Some(call) => 0 <= self.batch_index() < self.batch_calls().len() && call@
                    == self.batch_calls()[self.batch_index()],
                None => self.batch_index() >= self.batch_calls().len(),
            },
    {
        if self.call_index < self.tool_calls.len() {
            Some(&self.tool_calls[self.call_index])
        } else {
            None
        }
    }

    /// The batch's tool call at `position`, if it has one.
    pub fn tool_call_at(&self, position: usize) -> (c: Option<&ContentBlock>)
        ensures
            match c {
                Some(call) => position < self.batch_calls().len() && call@
                    == self.batch_calls()[position as int],
                None => position >= self.batch_calls().len(),
            },
    {
        if position < self.tool_calls.len() {
            Some(&self.tool_calls[position])
        } else {
            None
        }
    }

    /// Ends the loop, handing over its context and the run's new messages.
    pub fn finish(self) -> (r: (AgentContext, Vec<AgentMessage>))
        ensures
            r.0.messages.deep_view() == self.context_messages(),
            r.1.deep_view() == self.run_messages(),
    {
        (self.context, self.new_messages)
    }

    /// Reports `MessageStart` and `MessageEnd` for each message, appending each
    /// to the context and to the run's messages.
    fn take_messages(&mut self, msgs: Vec<AgentMessage>, events: &mut Vec<AgentEvent>)
        ensures
            final(self).context.messages.deep_view() == old(self).context.messages.deep_view()
                + msgs.deep_view(),
            final(self).new_messages.deep_view() == old(self).new_messages.deep_view()
                + msgs.deep_view(),
            final(events).deep_view() == old(events).deep_view() + message_pairs(msgs.deep_view()),
            final(self).phase == old(self).phase,
            final(self).first_run == old(self).first_run,
            final(self).has_more_tool_calls == old(self).has_more_tool_calls,
            final(self).trace == old(self).trace,
            final(self).initial == old(self).initial,
            final(self).well_behaved == old(self).well_behaved,
            final(self).partial_message == old(self).partial_message,
            final(self).added_partial == old(self).added_partial,
            final(self).tool_execution == old(self).tool_execution,
            final(self).context.tools == old(self).context.tools,
    {
        let ghost ms = msgs.deep_view();
        let ghost c0 = self.context.messages.deep_view();
        let ghost n0 = self.new_messages.deep_view();
        let ghost e0 = events.deep_view();
        let mut i: usize = 0;
        while i < msgs.len()
            invariant
                i <= msgs.len(),
                ms == msgs.deep_view(),
                self.context.messages.deep_view() == c0 + ms.take(i as int),
                self.new_messages.deep_view() == n0 + ms.take(i as int),
                events.deep_view() == e0 + message_pairs(ms.take(i as int)),
                self.phase == old(self).phase,
                self.first_run == old(self).first_run,
                self.has_more_tool_calls == old(self).has_more_tool_calls,
                self.trace == old(self).trace,
                self.initial == old(self).initial,
                self.well_behaved == old(self).well_behaved,
                self.partial_message == old(self).partial_message,
                self.added_partial == old(self).added_partial,
                self.tool_execution == old(self).tool_execution,
                self.context.tools == old(self).context.tools,
            decreases msgs.len() - i,
        {
            let m = &msgs[i];
            let ghost mv = ms[i as int];
            assert(ms.take(i + 1) =~= ms.take(i as int).push(mv));
            assert(ms.take(i + 1).drop_last() =~= ms.take(i as int));
            let ghost ev0 = events.deep_view();
            events.push(AgentEvent::MessageStart { message: m.clone() });
            events.push(AgentEvent::MessageEnd { message: m.clone() });
            assert(events.deep_view() =~= ev0 + seq![
                AgentEventView::MessageStart { message: mv },
                AgentEventView::MessageEnd { message: mv },
            ]);
            let ghost cc = self.context.messages.deep_view();
            self.context.messages.push(m.clone());
            assert(self.context.messages.deep_view() =~= cc.push(mv));
            let ghost nn = self.new_messages.deep_view();
            self.new_messages.push(m.clone());
            assert(self.new_messages.deep_view() =~= nn.push(mv));
            i = i + 1;
            assert(self.context.messages.deep_view() =~= c0 + ms.take(i as int));
            assert(self.new_messages.deep_view() =~= n0 + ms.take(i as int));
            assert(events.deep_view() =~= e0 + message_pairs(ms.take(i as int)));
        }
        assert(ms.take(i as int) =~= ms);
    }
}

proof fn lemma_batch_events_prefix(
    calls: Seq<ContentBlockView>,
    o1: Seq<(AgentToolResultView, bool)>,
    m1: Seq<AgentMessageView>,
    o2: Seq<(AgentToolResultView, bool)>,
    m2: Seq<AgentMessageView>,
    from: int,
    to: int,
)
    requires
        forall|k: int| from <= k < to ==> o1[k] == o2[k] && m1[k] == m2[k],
    ensures
        batch_events(calls, o1, m1, from, to) == batch_events(calls, o2, m2, from, to),
    decreases to - from,
{
    if to > from {
        lemma_batch_events_prefix(calls, o1, m1, o2, m2, from, to - 1);
    }
}

impl AgentLoop {
    /// Reports a finished call of the batch: its end, then its result message.
    fn record_call(&mut self, finalized: FinalizedToolCallOutcome, events: &mut Vec<AgentEvent>)
        requires
            old(self).batch_core(),
            old(self).call_index < old(self).tool_calls.len(),
            finalized.tool_call@ == old(self).tool_calls@[old(self).call_index as int]@,
        ensures
            final(self).batch_core(),
            final(self).call_index == old(self).call_index + 1,
            *final(self) == (AgentLoop {
                call_index: final(self).call_index,
                finalized: final(self).finalized,
                tool_results: final(self).tool_results,
                ..*old(self)
            }),
            final(self).finalized@ == old(self).finalized@.push(finalized),
            final(self).tool_results.deep_view() == old(self).tool_results.deep_view().push(
                final(self).tool_results@.last()@,
            ),
            final(events).deep_view() == old(events).deep_view() + tool_end_events(
                finalized.tool_call@,
                (finalized.result@, finalized.is_error),
                final(self).tool_results@.last()@,
            ),
    {
        let ghost calls = self.tool_calls.deep_view();
        let ghost c = self.call_index as int;
        proof {
            let m = self.assistant_message->0@;
            if let MessageView::Assistant { content, .. } = m {
                lemma_tool_calls_in_are_calls(content);
            }
            assert(calls[c] is ToolCall);
        }
        let ghost ev0 = events.deep_view();
        match &finalized.tool_call {
            ContentBlock::ToolCall { id, name, .. } => {
                events.push(
                    AgentEvent::ToolExecutionEnd {
                        tool_call_id: id.clone(),
                        tool_name: name.clone(),
                        result: clone_json(&finalized.result.details),
                        is_error: finalized.is_error,
                    },
                );
            },
            _ => {
                proof {
                    assert(false);
                }
            },
        }
        let msg = create_tool_result_message(&finalized);
        let ghost mv = msg@;
        events.push(AgentEvent::MessageStart { message: msg.clone() });
        events.push(AgentEvent::MessageEnd { message: msg.clone() });
        assert(events.deep_view() =~= ev0 + tool_end_events(
            finalized.tool_call@,
            (finalized.result@, finalized.is_error),
            mv,
        ));
        let ghost r0 = self.tool_results.deep_view();
        let ghost f0 = self.finalized@;
        self.finalized.push(finalized);
        self.tool_results.push(msg);
        self.call_index = self.call_index + 1;
        proof {
            assert(self.tool_results.deep_view() =~= r0.push(mv));
            assert forall|k: int| 0 <= k < self.call_index implies {
                &&& (#[trigger] self.finalized@[k]).tool_call@ == calls[k]
                &&& is_result_message(
                    self.tool_results@[k]@,
                    calls[k],
                    self.finalized@[k].result@,
                    self.finalized@[k].is_error,
                )
            } by {
                if k < c {
                    assert(self.finalized@[k] == f0[k]);
                    assert(self.tool_results@[k]@ == r0[k]);
                }
            }
        }
    }

    /// Appends messages to the transcript and to the run's messages.
    fn extend_transcript(&mut self, msgs: &Vec<AgentMessage>)
        ensures
            final(self).context.messages.deep_view() == old(self).context.messages.deep_view()
                + msgs.deep_view(),
            final(self).new_messages.deep_view() == old(self).new_messages.deep_view()
                + msgs.deep_view(),
            *final(self) == (AgentLoop {
                context: AgentContext { messages: final(self).context.messages, ..old(self).context },
                new_messages: final(self).new_messages,
                ..*old(self)
            }),
    {
        let ghost c0 = self.context.messages.deep_view();
        let ghost n0 = self.new_messages.deep_view();
        let ghost ms = msgs.deep_view();
        let mut i: usize = 0;
        while i < msgs.len()
            invariant
                i <= msgs.len(),
                ms == msgs.deep_view(),
                self.context.messages.deep_view() == c0 + ms.take(i as int),
                self.new_messages.deep_view() == n0 + ms.take(i as int),
                *self == (AgentLoop {
                    context: AgentContext { messages: self.context.messages, ..old(self).context },
                    new_messages: self.new_messages,
                    ..*old(self)
                }),
            decreases msgs.len() - i,
        {
            let ghost cc = self.context.messages.deep_view();
            let ghost nn = self.new_messages.deep_view();
            self.context.messages.push(msgs[i].clone());
            self.new_messages.push(msgs[i].clone());
            assert(ms.take(i + 1) =~= ms.take(i as int).push(ms[i as int]));
            assert(self.context.messages.deep_view() =~= cc.push(ms[i as int]));
            assert(self.new_messages.deep_view() =~= nn.push(ms[i as int]));
            i = i + 1;
        }
        assert(ms.take(i as int) =~= ms);
    }
}

/// Events that leave an open turn open, and keep the promise on tool results.
pub open spec fn keeps_turn_open(evs: Seq<AgentEventView>) -> bool {
    &&& protocol_run(ProtocolState::Running { turn_open: true, message_open: false }, evs) == (
    ProtocolState::Running { turn_open: true, message_open: false })
    &&& turn_ends_ok(evs)
}

proof fn lemma_keeps_turn_open_concat(a: Seq<AgentEventView>, b: Seq<AgentEventView>)
    requires
        keeps_turn_open(a),
        keeps_turn_open(b),
    ensures
        keeps_turn_open(a + b),
{
    lemma_protocol_run_concat(
        ProtocolState::Running { turn_open: true, message_open: false },
        a,
        b,
    );
    lemma_turn_ends_concat(a, b);
}

proof fn lemma_tool_start_keeps_turn_open(call: ContentBlockView)
    ensures
        keeps_turn_open(seq![tool_start_event(call)]),
{
    let b = seq![tool_start_event(call)];
    lemma_protocol_run_one(
        ProtocolState::Running { turn_open: true, message_open: false },
        b[0],
    );
    assert forall|j: int| 0 <= j < 1 implies turn_end_ok(#[trigger] b[j]) by {
        assert(j == 0);
    }
}

/// Events reported in an open turn, after which it is still open.
proof fn lemma_open_turn_extends(
    prefix: Seq<AgentEventView>,
    tail: Seq<AgentEventView>,
    well_behaved: bool,
)
    requires
        well_behaved ==> protocol_run(ProtocolState::Idle, prefix) == (ProtocolState::Running {
            turn_open: true,
            message_open: false,
        }),
        turn_ends_ok(prefix),
        keeps_turn_open(tail),
    ensures
        well_behaved ==> protocol_run(ProtocolState::Idle, prefix + tail) == (
        ProtocolState::Running { turn_open: true, message_open: false }),
        turn_ends_ok(prefix + tail),
{
    lemma_protocol_run_concat(ProtocolState::Idle, prefix, tail);
    lemma_turn_ends_concat(prefix, tail);
}

/// One more finished call extends the batch's events by its start and its end.
proof fn lemma_batch_step(
    calls: Seq<ContentBlockView>,
    o0: Seq<(AgentToolResultView, bool)>,
    m0: Seq<AgentMessageView>,
    o: (AgentToolResultView, bool),
    m: AgentMessageView,
    i0: int,
    c: int,
)
    requires
        0 <= i0 <= c,
        o0.len() == c,
        m0.len() == c,
        keeps_turn_open(batch_events(calls, o0, m0, i0, c)),
    ensures
        batch_events(calls, o0.push(o), m0.push(m), i0, c + 1) == batch_events(
            calls,
            o0,
            m0,
            i0,
            c,
        ) + seq![tool_start_event(calls[c])] + tool_end_events(calls[c], o, m),
        keeps_turn_open(batch_events(calls, o0.push(o), m0.push(m), i0, c + 1)),
        o0.push(o).take(i0) == o0.take(i0),
        m0.push(m).take(i0) == m0.take(i0),
{
    let o1 = o0.push(o);
    let m1 = m0.push(m);
    assert forall|k: int| i0 <= k < c implies o1[k] == o0[k] && m1[k] == m0[k] by {}
    lemma_batch_events_prefix(calls, o0, m0, o1, m1, i0, c);
    let be = batch_events(calls, o0, m0, i0, c);
    let start = seq![tool_start_event(calls[c])];
    lemma_tool_start_keeps_turn_open(calls[c]);
    lemma_tool_end_events(calls[c], o, m);
    lemma_keeps_turn_open_concat(be, start);
    lemma_keeps_turn_open_concat(be + start, tool_end_events(calls[c], o, m));
    assert(o1.take(i0) =~= o0.take(i0));
    assert(m1.take(i0) =~= m0.take(i0));
}

/// The starts of the calls `from` to `to` of a batch.
pub open spec fn tool_starts(calls: Seq<ContentBlockView>, from: int, to: int) -> Seq<
    AgentEventView,
>
    decreases to - from,
{
    if to <= from {
        Seq::empty()
    } else {
        tool_starts(calls, from, to - 1).push(tool_start_event(calls[to - 1]))
    }
}

/// The ends of the calls `from` to `to` of a batch, each followed by its
/// result message.
pub open spec fn tool_ends(
    calls: Seq<ContentBlockView>,
    outcomes: Seq<(AgentToolResultView, bool)>,
    msgs: Seq<AgentMessageView>,
    from: int,
    to: int,
) -> Seq<AgentEventView>
    decreases to - from,
{
    if to <= from {
        Seq::empty()
    } else {
        tool_ends(calls, outcomes, msgs, from, to - 1) + tool_end_events(
            calls[to - 1],
            outcomes[to - 1],
            msgs[to - 1],
        )
    }
}

proof fn lemma_tool_starts(calls: Seq<ContentBlockView>, from: int, to: int)
    ensures
        keeps_turn_open(tool_starts(calls, from, to)),
    decreases to - from,
{
    if to <= from {
        let e = tool_starts(calls, from, to);
        assert(e =~= Seq::<AgentEventView>::empty());
        lemma_protocol_run_concat(
            ProtocolState::Running { turn_open: true, message_open: false },
            e,
            e,
        );
        lemma_turn_ends_concat(e, e);
        assert(e + e =~= e);
    } else {
        lemma_tool_starts(calls, from, to - 1);
        let a = tool_starts(calls, from, to - 1);
        let b = seq![tool_start_event(calls[to - 1])];
        lemma_tool_start_keeps_turn_open(calls[to - 1]);
        lemma_keeps_turn_open_concat(a, b);
        assert(tool_starts(calls, from, to) =~= a + b);
    }
}

proof fn lemma_tool_ends(
    calls: Seq<ContentBlockView>,
    outcomes: Seq<(AgentToolResultView, bool)>,
    msgs: Seq<AgentMessageView>,
    from: int,
    to: int,
)
    ensures
        keeps_turn_open(tool_ends(calls, outcomes, msgs, from, to)),
    decreases to - from,
{
    if to <= from {
        lemma_tool_starts(calls, from, to);
        assert(tool_ends(calls, outcomes, msgs, from, to) =~= tool_starts(calls, from, to));
    } else {
        lemma_tool_ends(calls, outcomes, msgs, from, to - 1);
        lemma_tool_end_events(calls[to - 1], outcomes[to - 1], msgs[to - 1]);
        lemma_keeps_turn_open_concat(
            tool_ends(calls, outcomes, msgs, from, to - 1),
            tool_end_events(calls[to - 1], outcomes[to - 1], msgs[to - 1]),
        );
    }
}

proof fn lemma_tool_ends_prefix(
    calls: Seq<ContentBlockView>,
    o1: Seq<(AgentToolResultView, bool)>,
    m1: Seq<AgentMessageView>,
    o2: Seq<(AgentToolResultView, bool)>,
    m2: Seq<AgentMessageView>,
    from: int,
    to: int,
)
    requires
        forall|k: int| from <= k < to ==> o1[k] == o2[k] && m1[k] == m2[k],
    ensures
        tool_ends(calls, o1, m1, from, to) == tool_ends(calls, o2, m2, from, to),
    decreases to - from,
{
    if to > from {
        lemma_tool_ends_prefix(calls, o1, m1, o2, m2, from, to - 1);
    }
}

/// The positions, in order, of the preflighted calls that run.
pub open spec fn prepared_positions(pf: Seq<PreflightView>) -> Seq<int>
    decreases pf.len(),
{
    if pf.len() == 0 {
        Seq::empty()
    } else if pf.last() is Prepared {
        prepared_positions(pf.drop_last()).push(pf.len() - 1)
    } else {
        prepared_positions(pf.drop_last())
    }
}

/// The calls preflighted before call `k` of which fewer run than of all.
proof fn lemma_prepared_prefix(pf: Seq<PreflightView>, k: int)
    requires
        0 <= k <= pf.len(),
    ensures
        prepared_positions(pf.take(k)).len() <= prepared_positions(pf).len(),
    decreases pf.len(),
{
    if k < pf.len() {
        lemma_prepared_prefix(pf.drop_last(), k);
        assert(pf.drop_last().take(k) =~= pf.take(k));
    } else {
        assert(pf.take(k) =~= pf);
    }
}

/// The outcome of call `k` of a concurrent batch: its error result, or what
/// its tool returned with the after-call hook's answer applied. `results` and
/// `afters` follow the order of the calls that ran.
pub open spec fn merged_outcome(
    pf: Seq<PreflightView>,
    results: Seq<AgentToolResultView>,
    afters: Seq<Option<AfterToolCallResult>>,
    k: int,
) -> (AgentToolResultView, bool) {
    match pf[k] {
        PreflightView::Immediate(r) => (r, true),
        PreflightView::Prepared { .. } => {
            let j = prepared_positions(pf.take(k)).len() as int;
            after_applied(results[j], false, afters[j])
        },
    }
}

/// `e` runs the preflighted call at position `p` of the batch.
pub open spec fn runs_call(
    e: ToolExecution,
    pf: Seq<PreflightView>,
    calls: Seq<ContentBlockView>,
    p: int,
) -> bool {
    &&& e.position == p
    &&& pf[p] matches PreflightView::Prepared { tool_index, arguments } && e.tool_index
        == tool_index && e.arguments == arguments
    &&& e.tool_call_id@ == calls[p]->ToolCall_id
}

/// `ex` runs the preflighted calls at `positions`, in that order.
pub open spec fn runs_calls(
    ex: Seq<ToolExecution>,
    pf: Seq<PreflightView>,
    calls: Seq<ContentBlockView>,
    positions: Seq<int>,
) -> bool {
    &&& ex.len() == positions.len()
    &&& forall|k: int| 0 <= k < ex.len() ==> runs_call(#[trigger] ex[k], pf, calls, positions[k])
}

impl AgentLoop {
    /// The events not yet in the trace leave the turn open, and keep the
    /// promise on tool results.
    closed spec fn pending_ok(&self, evs: Seq<AgentEventView>) -> bool {
        &&& self.well_behaved@ ==> protocol_run(ProtocolState::Idle, self.trace@ + evs) == (
        ProtocolState::Running { turn_open: true, message_open: false })
        &&& turn_ends_ok(self.trace@ + evs)
    }

    /// Ends the batch once every call is finished: its result messages join
    /// the transcript and the run's messages, and the turn ends.
    fn end_batch(&mut self, events: &mut Vec<AgentEvent>) -> (req: LoopRequest)
        requires
            old(self).batch_core(),
            old(self).call_index == old(self).tool_calls.len(),
            !old(self).first_run,
            old(self).well_behaved@ ==> old(self).context.messages.deep_view() == old(
                self,
            ).initial@ + old(self).new_messages.deep_view(),
            old(self).pending_ok(old(events).deep_view()),
        ensures
            final(self).wf(),
            final(self).trace@ == old(self).trace@ + final(events).deep_view(),
            final(events).deep_view() == old(events).deep_view() + seq![
                AgentEventView::TurnEnd {
                    message: AgentMessageView::Llm(old(self).assistant_message->0@),
                    tool_results: old(self).tool_results.deep_view(),
                },
            ],
            req is SteeringMessages,
            final(self).phase == LoopPhase::AwaitSteering,
            final(self).has_more_tool_calls == !batch_terminates(
                old(self).batch_outcomes().map_values(
                    |o: (AgentToolResultView, bool)| o.0.terminate,
                ),
            ),
            final(self).context.messages.deep_view() == old(self).context.messages.deep_view()
                + old(self).tool_results.deep_view(),
            final(self).new_messages.deep_view() == old(self).new_messages.deep_view()
                + old(self).tool_results.deep_view(),
            final(self).tool_calls == old(self).tool_calls,
            final(self).assistant_message == old(self).assistant_message,
            final(self).finalized == old(self).finalized,
            final(self).tool_results == old(self).tool_results,
            final(self).call_index == old(self).call_index,
            final(self).initial == old(self).initial,
            final(self).well_behaved == old(self).well_behaved,
            final(self).context.tools == old(self).context.tools,
            final(self).tool_execution == old(self).tool_execution,
            final(self).first_run == old(self).first_run,
            final(self).parallel_batch == old(self).parallel_batch,
    {
        let ghost t0 = self.trace@;
        let ghost ev0 = events.deep_view();
        let ghost calls = self.tool_calls.deep_view();
        let ghost ms = self.tool_results.deep_view();
        let terminate = should_terminate_tool_batch(&self.finalized);
        self.has_more_tool_calls = !terminate;
        let results = clone_agent_messages(&self.tool_results);
        self.extend_transcript(&results);
        let assistant = match &self.assistant_message {
            Some(m) => m.clone(),
            None => unreached(),
        };
        let ghost av = assistant@;
        events.push(
            AgentEvent::TurnEnd {
                message: AgentMessage::from_message(assistant),
                tool_results: results,
            },
        );
        self.phase = LoopPhase::AwaitSteering;
        proof {
            let te = AgentEventView::TurnEnd { message: AgentMessageView::Llm(av), tool_results: ms };
            assert(events.deep_view() =~= ev0 + seq![te]);
            assert(terminate_flags(self.finalized@) =~= self.batch_outcomes().map_values(
                |o: (AgentToolResultView, bool)| o.0.terminate,
            ));
            if let MessageView::Assistant { content, .. } = av {
                lemma_tool_calls_in_are_calls(content);
            }
            assert(turn_end_ok(te)) by {
                assert forall|k: int| 0 <= k < ms.len() implies answers_call(
                    #[trigger] ms[k],
                    tool_calls_of(av)[k],
                ) by {
                    assert(self.finalized@[k].tool_call@ == calls[k]);
                    lemma_result_answers_call(
                        ms[k],
                        calls[k],
                        self.finalized@[k].result@,
                        self.finalized@[k].is_error,
                    );
                }
            }
            assert(turn_ends_ok(seq![te])) by {
                let b = seq![te];
                assert forall|j: int| 0 <= j < 1 implies turn_end_ok(#[trigger] b[j]) by {
                    assert(j == 0);
                }
            }
            lemma_turn_ends_concat(t0 + ev0, seq![te]);
            assert(t0 + events.deep_view() =~= (t0 + ev0) + seq![te]);
            if self.well_behaved@ {
                lemma_protocol_run_concat(ProtocolState::Idle, t0 + ev0, seq![te]);
                lemma_protocol_run_one(
                    ProtocolState::Running { turn_open: true, message_open: false },
                    te,
                );
                assert(self.context.messages.deep_view() =~= self.initial@
                    + self.new_messages.deep_view());
            }
        }
        self.trace = Ghost(t0 + events.deep_view());
        LoopRequest::SteeringMessages
    }

    /// Opens the batch's current call: reports its start; when its tool is
    /// found, returns the tool's position, otherwise finishes the call at
    /// once with an error result.
    fn open_call(&mut self, events: &mut Vec<AgentEvent>) -> (r: Option<usize>)
        requires
            old(self).batch_core(),
            old(self).call_index < old(self).tool_calls.len(),
        ensures
            final(self).batch_core(),
            ({
                let call = old(self).tool_calls@[old(self).call_index as int]@;
                let tools = tools_view(old(self).context.tools);
                match r {
                    Some(t) => {
                        &&& resolve_tool(tools, call->ToolCall_name) == Some(t as int)
                        &&& *final(self) == *old(self)
                        &&& final(events).deep_view() == old(events).deep_view() + seq![
                            tool_start_event(call),
                        ]
                    },
                    None => {
                        &&& resolve_tool(tools, call->ToolCall_name) is None
                        &&& *final(self) == (AgentLoop {
                            call_index: final(self).call_index,
                            finalized: final(self).finalized,
                            tool_results: final(self).tool_results,
                            ..*old(self)
                        })
                        &&& final(self).call_index == old(self).call_index + 1
                        &&& final(self).batch_outcomes() == old(self).batch_outcomes().push(
                            not_found_outcome(call->ToolCall_name),
                        )
                        &&& final(self).batch_messages() == old(self).batch_messages().push(
                            final(self).batch_messages().last(),
                        )
                        &&& final(events).deep_view() == old(events).deep_view() + seq![
                            tool_start_event(call),
                        ] + tool_end_events(
                            call,
                            not_found_outcome(call->ToolCall_name),
                            final(self).batch_messages().last(),
                        )
                    },
                }
            }),
    {
        let c = self.call_index;
        let ghost calls = self.tool_calls.deep_view();
        let ghost evc = events.deep_view();
        let ghost o0 = self.batch_outcomes();
        proof {
            let m = self.assistant_message->0@;
            if let MessageView::Assistant { content, .. } = m {
                lemma_tool_calls_in_are_calls(content);
            }
            assert(calls[c as int] is ToolCall);
        }
        let call = &self.tool_calls[c];
        match call {
            ContentBlock::ToolCall { id, name, arguments, .. } => {
                events.push(
                    AgentEvent::ToolExecutionStart {
                        tool_call_id: id.clone(),
                        tool_name: name.clone(),
                        args: clone_json(arguments),
                    },
                );
                assert(events.deep_view() =~= evc + seq![tool_start_event(calls[c as int])]);
                match find_tool(&self.context.tools, name) {
                    Some(t) => Some(t),
                    None => {
                        let text = tool_not_found(name);
                        let fin = FinalizedToolCallOutcome {
                            tool_call: call.clone(),
                            result: create_error_tool_result(text),
                            is_error: true,
                        };
                        self.record_call(fin, events);
                        assert(self.batch_outcomes() =~= o0.push(
                            not_found_outcome(calls[c as int]->ToolCall_name),
                        ));
                        None
                    },
                }
            },
            _ => unreached(),
        }
    }

    /// Runs the tool batch on from the current call: a call whose tool is
    /// not found gets an error result at once; the first call whose tool is
    /// found is handed out to be prepared; when no call is left, the batch
    /// ends.
    fn advance_batch(&mut self, events: &mut Vec<AgentEvent>) -> (req: LoopRequest)
        requires
            old(self).batch_core(),
            !old(self).parallel_batch,
            !old(self).first_run,
            old(self).well_behaved@ ==> old(self).context.messages.deep_view() == old(
                self,
            ).initial@ + old(self).new_messages.deep_view(),
            old(self).pending_ok(old(events).deep_view()),
        ensures
            final(self).wf(),
            final(self).trace@ == old(self).trace@ + final(events).deep_view(),
            old(events).len() <= final(events).len(),
            final(events).deep_view().take(old(events).len() as int) == old(events).deep_view(),
            final(self).batch_advanced(
                old(self).call_index as int,
                old(self).new_messages.deep_view(),
                old(self).context.messages.deep_view(),
                final(events).deep_view().skip(old(events).len() as int),
                req,
            ),
            final(self).tool_calls@ == old(self).tool_calls@,
            final(self).assistant_message == old(self).assistant_message,
            final(self).batch_outcomes().take(old(self).call_index as int) == old(
                self,
            ).batch_outcomes(),
            final(self).batch_messages().take(old(self).call_index as int) == old(
                self,
            ).batch_messages(),
            final(self).initial == old(self).initial,
            final(self).well_behaved == old(self).well_behaved,
            final(self).context.tools == old(self).context.tools,
            final(self).tool_execution == old(self).tool_execution,
            !final(self).first_run,
            !final(self).parallel_batch,
    {
        let ghost i0 = self.call_index as int;
        let ghost ev0 = events.deep_view();
        let ghost s0 = *self;
        let ghost calls = self.tool_calls.deep_view();
        let ghost tools = tools_view(self.context.tools);
        proof {
            assert(batch_events(calls, self.batch_outcomes(), self.batch_messages(), i0, i0)
                =~= Seq::<AgentEventView>::empty());
            assert(events.deep_view() =~= ev0 + Seq::<AgentEventView>::empty());
            lemma_batch_events(calls, self.batch_outcomes(), self.batch_messages(), i0, i0);
            assert(self.batch_outcomes().take(i0) =~= s0.batch_outcomes());
            assert(self.batch_messages().take(i0) =~= s0.batch_messages());
        }
        while self.call_index < self.tool_calls.len()
            invariant
                self.batch_core(),
                i0 <= self.call_index,
                calls == self.tool_calls.deep_view(),
                tools == tools_view(self.context.tools),
                *self == (AgentLoop {
                    call_index: self.call_index,
                    finalized: self.finalized,
                    tool_results: self.tool_results,
                    ..s0
                }),
                0 <= i0,
                i0 == old(self).call_index as int,
                ev0 == old(events).deep_view(),
                s0 == *old(self),
                !s0.first_run,
                !s0.parallel_batch,
                s0.well_behaved@ ==> s0.context.messages.deep_view() == s0.initial@
                    + s0.new_messages.deep_view(),
                s0.pending_ok(ev0),
                self.batch_outcomes().take(i0) == s0.batch_outcomes(),
                self.batch_messages().take(i0) == s0.batch_messages(),
                events.deep_view() == ev0 + batch_events(
                    calls,
                    self.batch_outcomes(),
                    self.batch_messages(),
                    i0,
                    self.call_index as int,
                ),
                keeps_turn_open(
                    batch_events(
                        calls,
                        self.batch_outcomes(),
                        self.batch_messages(),
                        i0,
                        self.call_index as int,
                    ),
                ),
                forall|k: int|
                    i0 <= k < self.call_index ==> {
                        &&& resolve_tool(tools, (#[trigger] calls[k])->ToolCall_name) is None
                        &&& self.batch_outcomes()[k] == not_found_outcome(calls[k]->ToolCall_name)
                    },
            decreases self.tool_calls.len() - self.call_index,
        {
            let c = self.call_index;
            let ghost o0 = self.batch_outcomes();
            let ghost m0 = self.batch_messages();
            let ghost evc = events.deep_view();
            let ghost be = batch_events(calls, o0, m0, i0, c as int);
            let ghost start = seq![tool_start_event(calls[c as int])];
            proof {
                let m = self.assistant_message->0@;
                if let MessageView::Assistant { content, .. } = m {
                    lemma_tool_calls_in_are_calls(content);
                }
                assert(o0.len() == c);
                assert(m0.len() == c);
            }
            match self.open_call(events) {
                Some(t) => {
                    let args = match &self.tool_calls[c] {
                        ContentBlock::ToolCall { arguments, .. } => clone_json(arguments),
                        _ => unreached(),
                    };
                    self.tool_index = t;
                    self.phase = LoopPhase::AwaitPrepared;
                    proof {
                        lemma_tool_start_keeps_turn_open(calls[c as int]);
                        lemma_keeps_turn_open_concat(be, start);
                        lemma_open_turn_extends(s0.trace@ + ev0, be + start, s0.well_behaved@);
                        assert(events.deep_view() =~= ev0 + (be + start));
                        assert(s0.trace@ + events.deep_view() =~= (s0.trace@ + ev0) + (be + start));
                        assert(events.deep_view().take(ev0.len() as int) =~= ev0);
                        assert(events.deep_view().skip(ev0.len() as int) =~= be + start);
                    }
                    self.trace = Ghost(s0.trace@ + events.deep_view());
                    return LoopRequest::PrepareTool { tool_index: t, arguments: args };
                },
                None => {
                    proof {
                        let o1 = self.batch_outcomes();
                        let m1 = self.batch_messages();
                        lemma_batch_step(calls, o0, m0, o1[c as int], m1[c as int], i0, c as int);
                        assert(o1 == o0.push(o1[c as int]));
                        assert(m1 == m0.push(m1[c as int]));
                        assert forall|k: int| i0 <= k < c + 1 implies {
                            &&& resolve_tool(tools, (#[trigger] calls[k])->ToolCall_name) is None
                            &&& o1[k] == not_found_outcome(calls[k]->ToolCall_name)
                        } by {
                            if k < c {
                                assert(o1[k] == o0[k]);
                            }
                        }
                        assert(events.deep_view() =~= ev0 + batch_events(calls, o1, m1, i0, c + 1));
                    }
                },
            }
        }
        let ghost be = batch_events(
            calls,
            self.batch_outcomes(),
            self.batch_messages(),
            i0,
            self.call_index as int,
        );
        proof {
            lemma_open_turn_extends(s0.trace@ + ev0, be, s0.well_behaved@);
            assert(self.trace@ + events.deep_view() =~= (s0.trace@ + ev0) + be);
        }
        let req = self.end_batch(events);
        proof {
            let outcomes = self.batch_outcomes();
            let msgs = self.batch_messages();
            assert forall|k: int| 0 <= k < self.call_index implies is_result_message(
                #[trigger] msgs[k],
                calls[k],
                outcomes[k].0,
                outcomes[k].1,
            ) by {
                assert(msgs[k] == self.tool_results@[k]@);
                assert(outcomes[k] == (self.finalized@[k].result@, self.finalized@[k].is_error));
            }
            assert(events.deep_view().take(ev0.len() as int) =~= ev0);
            assert(events.deep_view().skip(ev0.len() as int) =~= be + seq![
                AgentEventView::TurnEnd {
                    message: AgentMessageView::Llm(self.batch_assistant()->0),
                    tool_results: self.batch_messages(),
                },
            ]);
        }
        req
    }
}

impl AgentLoop {
    /// Preflights a concurrent batch on from its next call: reports the call's
    /// start; a call whose tool is not found gets its error result at once;
    /// the first call whose tool is found is handed out to be prepared. Once
    /// every call is preflighted, the calls that run are handed out together.
    fn advance_preflight(&mut self, events: &mut Vec<AgentEvent>) -> (req: LoopRequest)
        requires
            old(self).batch_core(),
            old(self).call_index == 0,
            old(self).parallel_batch,
            old(self).preflight.len() <= old(self).tool_calls.len(),
            !old(self).first_run,
            old(self).well_behaved@ ==> old(self).context.messages.deep_view() == old(
                self,
            ).initial@ + old(self).new_messages.deep_view(),
            old(self).pending_ok(old(events).deep_view()),
        ensures
            final(self).wf(),
            final(self).trace@ == old(self).trace@ + final(events).deep_view(),
            old(events).len() <= final(events).len(),
            final(events).deep_view().take(old(events).len() as int) == old(events).deep_view(),
            final(self).preflight_advanced(
                old(self).preflight.len() as int,
                old(self).new_messages.deep_view(),
                old(self).context.messages.deep_view(),
                final(events).deep_view().skip(old(events).len() as int),
                req,
            ),
            final(self).batch_preflight().take(old(self).preflight.len() as int) == old(
                self,
            ).batch_preflight(),
            final(self).tool_calls@ == old(self).tool_calls@,
            final(self).assistant_message == old(self).assistant_message,
            final(self).initial == old(self).initial,
            final(self).well_behaved == old(self).well_behaved,
            final(self).context.tools == old(self).context.tools,
            final(self).tool_execution == old(self).tool_execution,
            !final(self).first_run,
    {
        let ghost p0 = self.preflight.len() as int;
        let ghost ev0 = events.deep_view();
        let ghost s0 = *self;
        let ghost calls = self.tool_calls.deep_view();
        let ghost tools = tools_view(self.context.tools);
        proof {
            let m = self.assistant_message->0@;
            if let MessageView::Assistant { content, .. } = m {
                lemma_tool_calls_in_are_calls(content);
            }
            assert(tool_starts(calls, p0, p0) =~= Seq::<AgentEventView>::empty());
            assert(events.deep_view() =~= ev0 + tool_starts(calls, p0, p0));
            lemma_tool_starts(calls, p0, p0);
            assert(self.batch_preflight().take(p0) =~= s0.batch_preflight());
        }
        while self.preflight.len() < self.tool_calls.len()
            invariant
                self.batch_core(),
                self.call_index == 0,
                p0 <= self.preflight.len() <= self.tool_calls.len(),
                calls == self.tool_calls.deep_view(),
                tools == tools_view(self.context.tools),
                forall|q: int| 0 <= q < calls.len() ==> (#[trigger] calls[q]) is ToolCall,
                *self == (AgentLoop { preflight: self.preflight, ..s0 }),
                0 <= p0,
                p0 == old(self).preflight.len(),
                ev0 == old(events).deep_view(),
                s0 == *old(self),
                !s0.first_run,
                s0.parallel_batch,
                s0.well_behaved@ ==> s0.context.messages.deep_view() == s0.initial@
                    + s0.new_messages.deep_view(),
                s0.pending_ok(ev0),
                self.batch_preflight().take(p0) == s0.batch_preflight(),
                events.deep_view() == ev0 + tool_starts(calls, p0, self.preflight.len() as int),
                keeps_turn_open(tool_starts(calls, p0, self.preflight.len() as int)),
                forall|k: int|
                    p0 <= k < self.preflight.len() ==> {
                        &&& resolve_tool(tools, (#[trigger] calls[k])->ToolCall_name) is None
                        &&& self.batch_preflight()[k] == PreflightView::Immediate(
                            not_found_outcome(calls[k]->ToolCall_name).0,
                        )
                    },
            decreases self.tool_calls.len() - self.preflight.len(),
        {
            let p = self.preflight.len();
            let ghost pf0 = self.batch_preflight();
            let ghost before = tool_starts(calls, p0, p as int);
            let ghost start_ev = tool_start_event(calls[p as int]);
            proof {
                assert(calls[p as int] is ToolCall);
            }
            let name = match &self.tool_calls[p] {
                ContentBlock::ToolCall { id, name, arguments, .. } => {
                    events.push(
                        AgentEvent::ToolExecutionStart {
                            tool_call_id: id.clone(),
                            tool_name: name.clone(),
                            args: clone_json(arguments),
                        },
                    );
                    name.clone()
                },
                _ => unreached(),
            };
            proof {
                assert(events.deep_view() =~= ev0 + before + seq![start_ev]);
                assert(tool_starts(calls, p0, p + 1) == before.push(start_ev));
                assert(events.deep_view() =~= ev0 + tool_starts(calls, p0, p + 1));
                lemma_tool_start_keeps_turn_open(calls[p as int]);
                assert(before.push(start_ev) =~= before + seq![start_ev]);
                lemma_keeps_turn_open_concat(before, seq![start_ev]);
            }
            match find_tool(&self.context.tools, &name) {
                Some(t) => {
                    let args = match &self.tool_calls[p] {
                        ContentBlock::ToolCall { arguments, .. } => clone_json(arguments),
                        _ => unreached(),
                    };
                    self.tool_index = t;
                    self.phase = LoopPhase::AwaitPrepared;
                    proof {
                        let all = tool_starts(calls, p0, p + 1);
                        lemma_open_turn_extends(s0.trace@ + ev0, all, s0.well_behaved@);
                        assert(s0.trace@ + events.deep_view() =~= (s0.trace@ + ev0) + all);
                        assert(events.deep_view().take(ev0.len() as int) =~= ev0);
                        assert(events.deep_view().skip(ev0.len() as int) =~= all);
                    }
                    self.trace = Ghost(s0.trace@ + events.deep_view());
                    return LoopRequest::PrepareTool { tool_index: t, arguments: args };
                },
                None => {
                    let text = tool_not_found(&name);
                    self.preflight.push(Preflight::Immediate(create_error_tool_result(text)));
                    proof {
                        assert(self.batch_preflight() =~= pf0.push(
                            PreflightView::Immediate(not_found_outcome(name@).0),
                        ));
                        assert(self.batch_preflight().take(p0) =~= pf0.take(p0));
                    }
                },
            }
        }
        let executions = self.collect_executions();
        self.phase = LoopPhase::AwaitExecutedAll;
        let ghost all = tool_starts(calls, p0, self.preflight.len() as int);
        proof {
            lemma_open_turn_extends(s0.trace@ + ev0, all, s0.well_behaved@);
            assert(s0.trace@ + events.deep_view() =~= (s0.trace@ + ev0) + all);
            assert(events.deep_view().take(ev0.len() as int) =~= ev0);
            assert(events.deep_view().skip(ev0.len() as int) =~= all);
        }
        self.trace = Ghost(s0.trace@ + events.deep_view());
        LoopRequest::ExecuteTools { executions }
    }

    /// The calls of a preflighted batch that run, in the order of the batch.
    fn collect_executions(&self) -> (ex: Vec<ToolExecution>)
        requires
            self.batch_core(),
            self.preflight.len() <= self.tool_calls.len(),
        ensures
            runs_calls(
                ex@,
                self.batch_preflight(),
                self.batch_calls(),
                prepared_positions(self.batch_preflight()),
            ),
    {
        let ghost pf = self.batch_preflight();
        let ghost calls = self.tool_calls.deep_view();
        proof {
            let m = self.assistant_message->0@;
            if let MessageView::Assistant { content, .. } = m {
                lemma_tool_calls_in_are_calls(content);
            }
            assert(pf.take(0) =~= Seq::<PreflightView>::empty());
        }
        let mut ex: Vec<ToolExecution> = Vec::new();
        let mut k: usize = 0;
        while k < self.preflight.len()
            invariant
                k <= self.preflight.len() <= self.tool_calls.len(),
                pf == self.batch_preflight(),
                calls == self.tool_calls.deep_view(),
                forall|q: int| 0 <= q < calls.len() ==> (#[trigger] calls[q]) is ToolCall,
                runs_calls(ex@, pf, calls, prepared_positions(pf.take(k as int))),
            decreases self.preflight.len() - k,
        {
            let ghost pos = prepared_positions(pf.take(k as int));
            let ghost ex0 = ex@;
            proof {
                assert(pf.take(k + 1).drop_last() =~= pf.take(k as int));
                assert(pf.take(k + 1).last() == pf[k as int]);
                assert(calls[k as int] is ToolCall);
            }
            match &self.preflight[k] {
                Preflight::Prepared { tool_index, arguments } => {
                    let id = match &self.tool_calls[k] {
                        ContentBlock::ToolCall { id, .. } => id.clone(),
                        _ => unreached(),
                    };
                    ex.push(
                        ToolExecution {
                            position: k,
                            tool_index: *tool_index,
                            tool_call_id: id,
                            arguments: clone_json(arguments),
                        },
                    );
                    proof {
                        let pos1 = prepared_positions(pf.take(k + 1));
                        assert(pos1 == pos.push(k as int));
                        assert forall|q: int| 0 <= q < ex@.len() implies runs_call(
                            #[trigger] ex@[q],
                            pf,
                            calls,
                            pos1[q],
                        ) by {
                            if q < ex0.len() {
                                assert(ex@[q] == ex0[q]);
                                assert(runs_call(ex0[q], pf, calls, pos[q]));
                            }
                        }
                    }
                },
                Preflight::Immediate(_) => {
                    assert(prepared_positions(pf.take(k + 1)) == pos);
                },
            }
            k = k + 1;
        }
        proof {
            assert(pf.take(k as int) =~= pf);
        }
        ex
    }
}

/// Whether a message ends the run: it stopped on an error or was aborted.
fn message_ends_run(m: &Message) -> (b: bool)
    ensures
        b == ends_run(m@),
{
    match m {
        Message::Assistant { stop_reason, .. } => *stop_reason == StopReason::Error
            || *stop_reason == StopReason::Aborted,
        _ => false,
    }
}

impl AgentLoop {
    /// Goes on from a delivered assistant message: it joins the run's
    /// messages; then the turn, and maybe the run, ends, or its tool calls
    /// run as a batch.
    fn handle_message(&mut self, m: Message, events: &mut Vec<AgentEvent>) -> (req: LoopRequest)
        requires
            !old(self).first_run,
            old(self).well_behaved@ ==> old(self).context.messages.deep_view() == old(
                self,
            ).initial@ + old(self).new_messages.deep_view().push(AgentMessageView::Llm(m@)),
            old(self).pending_ok(old(events).deep_view()),
        ensures
            final(self).wf(),
            final(self).trace@ == old(self).trace@ + final(events).deep_view(),
            old(events).len() <= final(events).len(),
            final(events).deep_view().take(old(events).len() as int) == old(events).deep_view(),
            final(self).message_handled(
                old(self).new_messages.deep_view(),
                old(self).context.messages.deep_view(),
                m@,
                final(events).deep_view().skip(old(events).len() as int),
                req,
            ),
            final(self).initial == old(self).initial,
            final(self).well_behaved == old(self).well_behaved,
            final(self).context.tools == old(self).context.tools,
            final(self).tool_execution == old(self).tool_execution,
            !final(self).first_run,
    {
        let ghost t0 = self.trace@;
        let ghost ev0 = events.deep_view();
        let ghost n0 = self.new_messages.deep_view();
        let ghost c0 = self.context.messages.deep_view();
        let ghost mv = m@;
        let ghost am = AgentMessageView::Llm(mv);
        let ghost open = ProtocolState::Running { turn_open: true, message_open: false };
        let agent_message = AgentMessage::from_message(m.clone());
        self.new_messages.push(agent_message.clone());
        assert(self.new_messages.deep_view() =~= n0.push(am));
        let no_results: Vec<AgentMessage> = Vec::new();
        assert(no_results.deep_view() =~= Seq::<AgentMessageView>::empty());
        if message_ends_run(&m) {
            events.push(AgentEvent::TurnEnd { message: agent_message, tool_results: no_results });
            events.push(AgentEvent::AgentEnd { messages: clone_agent_messages(&self.new_messages) });
            self.phase = LoopPhase::Finished;
            proof {
                let tail = seq![
                    AgentEventView::TurnEnd { message: am, tool_results: Seq::empty() },
                    AgentEventView::AgentEnd { messages: n0.push(am) },
                ];
                assert(events.deep_view() =~= ev0 + tail);
                lemma_turn_ends_two(tail[0], tail[1]);
                lemma_turn_ends_concat(t0 + ev0, tail);
                assert(t0 + events.deep_view() =~= (t0 + ev0) + tail);
                if self.well_behaved@ {
                    lemma_protocol_run_concat(ProtocolState::Idle, t0 + ev0, tail);
                    lemma_protocol_run_two(open, tail[0], tail[1]);
                }
                assert(events.deep_view().take(ev0.len() as int) =~= ev0);
                assert(events.deep_view().skip(ev0.len() as int) =~= tail);
            }
            self.trace = Ghost(t0 + events.deep_view());
            return LoopRequest::Finished;
        }
        let calls = filter_tool_calls(&m);
        self.has_more_tool_calls = false;
        if calls.len() == 0 {
            events.push(AgentEvent::TurnEnd { message: agent_message, tool_results: no_results });
            self.phase = LoopPhase::AwaitSteering;
            proof {
                let te = AgentEventView::TurnEnd { message: am, tool_results: Seq::empty() };
                assert(events.deep_view() =~= ev0 + seq![te]);
                assert(turn_ends_ok(seq![te])) by {
                    let b = seq![te];
                    assert forall|j: int| 0 <= j < 1 implies turn_end_ok(#[trigger] b[j]) by {
                        assert(j == 0);
                    }
                }
                lemma_turn_ends_concat(t0 + ev0, seq![te]);
                assert(t0 + events.deep_view() =~= (t0 + ev0) + seq![te]);
                if self.well_behaved@ {
                    lemma_protocol_run_concat(ProtocolState::Idle, t0 + ev0, seq![te]);
                    lemma_protocol_run_one(open, te);
                }
                assert(events.deep_view().take(ev0.len() as int) =~= ev0);
                assert(events.deep_view().skip(ev0.len() as int) =~= seq![te]);
            }
            self.trace = Ghost(t0 + events.deep_view());
            return LoopRequest::SteeringMessages;
        }
        if self.tool_execution == ToolExecutionMode::Sequential || has_sequential_tool(
            &self.context.tools,
            &calls,
        ) {
            self.assistant_message = Some(m);
            self.tool_calls = calls;
            self.call_index = 0;
            self.finalized = Vec::new();
            self.tool_results = Vec::new();
            self.parallel_batch = false;
            self.preflight = Vec::new();
            proof {
                assert(self.tool_results.deep_view() =~= Seq::<AgentMessageView>::empty());
                assert(self.batch_outcomes() =~= Seq::<(AgentToolResultView, bool)>::empty());
            }
            let req = self.advance_batch(events);
            req
        } else {
            self.assistant_message = Some(m);
            self.tool_calls = calls;
            self.call_index = 0;
            self.finalized = Vec::new();
            self.tool_results = Vec::new();
            self.parallel_batch = true;
            self.preflight = Vec::new();
            proof {
                assert(self.tool_results.deep_view() =~= Seq::<AgentMessageView>::empty());
                assert(self.batch_outcomes() =~= Seq::<(AgentToolResultView, bool)>::empty());
                assert(self.batch_preflight() =~= Seq::<PreflightView>::empty());
            }
            let req = self.advance_preflight(events);
            req
        }
    }
}

/// The streamed message an update event carries.
fn update_partial_of(e: &AssistantMessageEvent) -> (r: Option<&Message>)
    ensures
        match r {
            Some(p) => update_partial(e@) == Some(p@),
            None => update_partial(e@) is None,
        },
{
    match e {
        AssistantMessageEvent::TextStart { partial, .. } => Some(partial),
        AssistantMessageEvent::TextDelta { partial, .. } => Some(partial),
        AssistantMessageEvent::TextEnd { partial, .. } => Some(partial),
        AssistantMessageEvent::ThinkingStart { partial, .. } => Some(partial),
        AssistantMessageEvent::ThinkingDelta { partial, .. } => Some(partial),
        AssistantMessageEvent::ThinkingEnd { partial, .. } => Some(partial),
        AssistantMessageEvent::ToolCallStart { partial, .. } => Some(partial),
        AssistantMessageEvent::ToolCallDelta { partial, .. } => Some(partial),
        AssistantMessageEvent::ToolCallEnd { partial, .. } => Some(partial),
        _ => None,
    }
}

impl AgentLoop {
    /// Delivers a finished assistant message: it replaces the streamed
    /// message in the transcript, or joins it when none was streamed, and is
    /// reported as ended; then the loop goes on from it.
    fn deliver(&mut self, m: Message, events: &mut Vec<AgentEvent>) -> (req: LoopRequest)
        requires
            old(self).wf(),
            old(self).phase == LoopPhase::Streaming,
            old(events).len() == 0,
        ensures
            final(self).wf(),
            final(self).trace@ == old(self).trace@ + final(events).deep_view(),
            ({
                let am = AgentMessageView::Llm(m@);
                let opened = old(self).partial_message is Some;
                let d = delivery_events(opened, am);
                &&& d.len() <= final(events).len()
                &&& final(events).deep_view().take(d.len() as int) == d
                &&& final(self).message_handled(
                    old(self).new_messages.deep_view(),
                    delivered_context(old(self).context.messages.deep_view(), opened, am),
                    m@,
                    final(events).deep_view().skip(d.len() as int),
                    req,
                )
            }),
            final(self).initial == old(self).initial,
            final(self).well_behaved == old(self).well_behaved,
            final(self).context.tools == old(self).context.tools,
            final(self).tool_execution == old(self).tool_execution,
            !final(self).first_run,
    {
        let ghost t0 = self.trace@;
        let ghost c0 = self.context.messages.deep_view();
        let ghost am = AgentMessageView::Llm(m@);
        let ghost opened = self.added_partial;
        let ghost open = ProtocolState::Running { turn_open: true, message_open: false };
        let agent_message = AgentMessage::from_message(m.clone());
        if self.added_partial {
            let n = self.context.messages.len();
            if n > 0 {
                self.context.messages.set(n - 1, agent_message.clone());
            } else {
                self.context.messages.push(agent_message.clone());
            }
        } else {
            self.context.messages.push(agent_message.clone());
            events.push(AgentEvent::MessageStart { message: agent_message.clone() });
        }
        events.push(AgentEvent::MessageEnd { message: agent_message });
        proof {
            let d = delivery_events(opened, am);
            assert(events.deep_view() =~= d);
            if opened {
                assert(self.context.messages.deep_view() =~= c0.update(c0.len() - 1, am));
                lemma_protocol_run_one(
                    ProtocolState::Running { turn_open: true, message_open: true },
                    d[0],
                );
                assert(turn_ends_ok(d)) by {
                    assert forall|j: int| 0 <= j < d.len() implies turn_end_ok(#[trigger] d[j]) by {
                        assert(j == 0);
                    }
                }
            } else {
                assert(self.context.messages.deep_view() =~= c0.push(am));
                lemma_protocol_run_two(open, d[0], d[1]);
                lemma_turn_ends_two(d[0], d[1]);
            }
            lemma_turn_ends_concat(t0, d);
            if self.well_behaved@ {
                lemma_protocol_run_concat(ProtocolState::Idle, t0, d);
                assert(self.context.messages.deep_view() =~= self.initial@
                    + self.new_messages.deep_view().push(am));
            }
        }
        self.handle_message(m, events)
    }

    /// Takes the next event of the assistant stream. `Start` opens the
    /// streamed message: it joins the transcript and is reported. An update
    /// replaces the streamed message, in the transcript too, and is reported
    /// with its event; before `Start` it is ignored. `Done` and `Error`
    /// deliver the finished message, and the loop goes on from it.
    pub fn on_stream_event(&mut self, event: AssistantMessageEvent) -> (r: LoopStep)
        requires
            old(self).wf(),
            old(self).phase() == LoopPhase::Streaming,
        ensures
            final(self).wf(),
            final(self).trace() == old(self).trace() + r.events.deep_view(),
            final(self).initial_messages() == old(self).initial_messages(),
            final(self).tools() == old(self).tools(),
            final(self).tool_mode() == old(self).tool_mode(),
            !final(self).is_first_turn(),
            event@ is Start ==> {
                let p = event@->Start_partial;
                &&& r.events.deep_view() == seq![
                    AgentEventView::MessageStart { message: AgentMessageView::Llm(p) },
                ]
                &&& r.request is NextStreamEvent
                &&& final(self).phase() == LoopPhase::Streaming
                &&& final(self).streamed_partial() == Some(p)
                &&& final(self).context_messages() == old(self).context_messages().push(
                    AgentMessageView::Llm(p),
                )
                &&& final(self).run_messages() == old(self).run_messages()
                &&& final(self).streams_well_formed() == (old(self).streams_well_formed() && old(
                    self,
                ).streamed_partial() is None)
            },
            update_partial(event@) is Some ==> {
                let p = update_partial(event@)->0;
                &&& r.request is NextStreamEvent
                &&& final(self).phase() == LoopPhase::Streaming
                &&& final(self).run_messages() == old(self).run_messages()
                &&& final(self).streams_well_formed() == old(self).streams_well_formed()
                &&& if old(self).streamed_partial() is Some {
                    &&& r.events.deep_view() == seq![
                        AgentEventView::MessageUpdate {
                            message: AgentMessageView::Llm(p),
                            assistant_message_event: event@,
                        },
                    ]
                    &&& final(self).streamed_partial() == Some(p)
                    &&& final(self).context_messages() == old(self).context_messages().update(
                        old(self).context_messages().len() - 1,
                        AgentMessageView::Llm(p),
                    )
                } else {
                    &&& r.events.deep_view() == Seq::<AgentEventView>::empty()
                    &&& final(self).streamed_partial() is None
                    &&& final(self).context_messages() == old(self).context_messages()
                }
            },
            terminal_message(event@) is Some ==> {
                let m = terminal_message(event@)->0;
                let am = AgentMessageView::Llm(m);
                let opened = old(self).streamed_partial() is Some;
                let d = delivery_events(opened, am);
                &&& d.len() <= r.events.len()
                &&& r.events.deep_view().take(d.len() as int) == d
                &&& final(self).message_handled(
                    old(self).run_messages(),
                    delivered_context(old(self).context_messages(), opened, am),
                    m,
                    r.events.deep_view().skip(d.len() as int),
                    r.request,
                )
                &&& final(self).streams_well_formed() == old(self).streams_well_formed()
            },
    {
        let mut events: Vec<AgentEvent> = Vec::new();
        let ghost t0 = self.trace@;
        let ghost c0 = self.context.messages.deep_view();
        match event {
            AssistantMessageEvent::Start { partial } => {
                let ghost p = partial@;
                let ghost was_opened = self.added_partial;
                if self.added_partial {
                    self.well_behaved = Ghost(false);
                }
                self.partial_message = Some(partial.clone());
                let agent_message = AgentMessage::from_message(partial);
                self.context.messages.push(agent_message.clone());
                self.added_partial = true;
                events.push(AgentEvent::MessageStart { message: agent_message });
                proof {
                    let e = AgentEventView::MessageStart { message: AgentMessageView::Llm(p) };
                    assert(events.deep_view() =~= seq![e]);
                    assert(self.context.messages.deep_view() =~= c0.push(AgentMessageView::Llm(p)));
                    assert(turn_ends_ok(seq![e])) by {
                        let b = seq![e];
                        assert forall|j: int| 0 <= j < 1 implies turn_end_ok(#[trigger] b[j]) by {
                            assert(j == 0);
                        }
                    }
                    lemma_turn_ends_concat(t0, seq![e]);
                    if self.well_behaved@ {
                        assert(!was_opened);
                        lemma_protocol_run_concat(ProtocolState::Idle, t0, seq![e]);
                        lemma_protocol_run_one(
                            ProtocolState::Running { turn_open: true, message_open: false },
                            e,
                        );
                        assert(self.context.messages.deep_view() =~= self.initial@
                            + self.new_messages.deep_view() + seq![AgentMessageView::Llm(p)]);
                    }
                }
                self.trace = Ghost(t0 + events.deep_view());
                LoopStep { events, request: LoopRequest::NextStreamEvent }
            },
            AssistantMessageEvent::Done { message, .. } => {
                let request = self.deliver(message, &mut events);
                LoopStep { events, request }
            },
            AssistantMessageEvent::Error { error, .. } => {
                let request = self.deliver(error, &mut events);
                LoopStep { events, request }
            },
            other => {
                let ghost ev = other@;
                if self.partial_message.is_some() {
                    let p = match update_partial_of(&other) {
                        Some(p) => p.clone(),
                        None => unreached(),
                    };
                    let ghost pv = p@;
                    self.partial_message = Some(p.clone());
                    let agent_message = AgentMessage::from_message(p);
                    let n = self.context.messages.len();
                    if n > 0 {
                        self.context.messages.set(n - 1, agent_message.clone());
                    }
                    events.push(
                        AgentEvent::MessageUpdate {
                            message: agent_message,
                            assistant_message_event: Box::new(other),
                        },
                    );
                    proof {
                        let e = AgentEventView::MessageUpdate {
                            message: AgentMessageView::Llm(pv),
                            assistant_message_event: ev,
                        };
                        assert(events.deep_view() =~= seq![e]);
                        assert(self.context.messages.deep_view() =~= c0.update(
                            c0.len() - 1,
                            AgentMessageView::Llm(pv),
                        ));
                        assert(turn_ends_ok(seq![e])) by {
                            let b = seq![e];
                            assert forall|j: int| 0 <= j < 1 implies turn_end_ok(#[trigger] b[j]) by {
                                assert(j == 0);
                            }
                        }
                        lemma_turn_ends_concat(t0, seq![e]);
                        if self.well_behaved@ {
                            lemma_protocol_run_concat(ProtocolState::Idle, t0, seq![e]);
                            lemma_protocol_run_one(
                                ProtocolState::Running { turn_open: true, message_open: true },
                                e,
                            );
                            assert(self.context.messages.deep_view() =~= self.initial@
                                + self.new_messages.deep_view() + seq![AgentMessageView::Llm(pv)]);
                        }
                    }
                }
                assert(t0 + events.deep_view() =~= t0 + events.deep_view());
                proof {
                    if events.len() == 0 {
                        assert(t0 + events.deep_view() =~= t0);
                    }
                }
                self.trace = Ghost(t0 + events.deep_view());
                LoopStep { events, request: LoopRequest::NextStreamEvent }
            },
        }
    }

    /// The assistant stream closed without `Done` or `Error`: the streamed
    /// message, if one was started, is delivered as it stands; otherwise the
    /// turn goes on from a message saying the stream ended without response,
    /// which is not added to the transcript.
    pub fn on_stream_end(&mut self) -> (r: LoopStep)
        requires
            old(self).wf(),
            old(self).phase() == LoopPhase::Streaming,
        ensures
            final(self).wf(),
            final(self).trace() == old(self).trace() + r.events.deep_view(),
            final(self).initial_messages() == old(self).initial_messages(),
            final(self).tools() == old(self).tools(),
            final(self).tool_mode() == old(self).tool_mode(),
            !final(self).is_first_turn(),
            old(self).streamed_partial() is Some ==> {
                let p = old(self).streamed_partial()->0;
                &&& 1 <= r.events.len()
                &&& r.events.deep_view().take(1) == seq![
                    AgentEventView::MessageEnd { message: AgentMessageView::Llm(p) },
                ]
                &&& final(self).message_handled(
                    old(self).run_messages(),
                    old(self).context_messages(),
                    p,
                    r.events.deep_view().skip(1),
                    r.request,
                )
                &&& final(self).streams_well_formed() == old(self).streams_well_formed()
            },
            old(self).streamed_partial() is None ==> {
                &&& final(self).message_handled(
                    old(self).run_messages(),
                    old(self).context_messages(),
                    stream_ended_message(),
                    r.events.deep_view(),
                    r.request,
                )
                &&& !final(self).streams_well_formed()
            },
    {
        let mut events: Vec<AgentEvent> = Vec::new();
        let ghost t0 = self.trace@;
        let request = match &self.partial_message {
            Some(p) => {
                let message = p.clone();
                let ghost pv = message@;
                if !self.added_partial {
                    events.push(
                        AgentEvent::MessageStart { message: AgentMessage::from_message(message.clone()) },
                    );
                }
                events.push(
                    AgentEvent::MessageEnd { message: AgentMessage::from_message(message.clone()) },
                );
                proof {
                    let e = AgentEventView::MessageEnd { message: AgentMessageView::Llm(pv) };
                    assert(events.deep_view() =~= seq![e]);
                    assert(turn_ends_ok(seq![e])) by {
                        let b = seq![e];
                        assert forall|j: int| 0 <= j < 1 implies turn_end_ok(#[trigger] b[j]) by {
                            assert(j == 0);
                        }
                    }
                    lemma_turn_ends_concat(t0, seq![e]);
                    if self.well_behaved@ {
                        lemma_protocol_run_concat(ProtocolState::Idle, t0, seq![e]);
                        lemma_protocol_run_one(
                            ProtocolState::Running { turn_open: true, message_open: true },
                            e,
                        );
                        assert(self.context.messages.deep_view() =~= self.initial@
                            + self.new_messages.deep_view().push(AgentMessageView::Llm(pv)));
                    }
                }
                self.handle_message(message, &mut events)
            },
            None => {
                self.well_behaved = Ghost(false);
                let message = make_stream_ended_message();
                proof {
                    assert(t0 + events.deep_view() =~= t0);
                }
                self.handle_message(message, &mut events)
            },
        };
        assert(events.deep_view().skip(0) =~= events.deep_view());
        LoopStep { events, request }
    }
}

impl AgentLoop {
    /// Takes the prepared arguments of the current call and the before-call
    /// hook's answer. A blocked call is finished at once with an error result
    /// (the hook's reason, or a default one) and the batch runs on; otherwise
    /// the tool is asked to run on the prepared arguments.
    pub fn on_tool_prepared(
        &mut self,
        arguments: serde_json::Value,
        before: Option<BeforeToolCallResult>,
    ) -> (r: LoopStep)
        requires
            old(self).wf(),
            old(self).phase() == LoopPhase::AwaitPrepared,
        ensures
            final(self).wf(),
            final(self).trace() == old(self).trace() + r.events.deep_view(),
            final(self).initial_messages() == old(self).initial_messages(),
            final(self).streams_well_formed() == old(self).streams_well_formed(),
            final(self).tools() == old(self).tools(),
            final(self).tool_mode() == old(self).tool_mode(),
            !final(self).is_first_turn(),
            final(self).batch_calls() == old(self).batch_calls(),
            final(self).batch_assistant() == old(self).batch_assistant(),
            !old(self).batch_is_parallel() ==> ({
                &&& old(self).batch_index() < old(self).batch_calls().len()
                &&& final(self).batch_outcomes().take(old(self).batch_index()) == old(
                    self,
                ).batch_outcomes()
                &&& final(self).batch_messages().take(old(self).batch_index()) == old(
                    self,
                ).batch_messages()
                &&& {
                    let i = old(self).batch_index();
                    let call = old(self).batch_calls()[i];
                    match blocked_outcome(before) {
                        Some(res) => {
                            &&& final(self).batch_outcomes()[i] == (res, true)
                            &&& 3 <= r.events.len()
                            &&& r.events.deep_view().take(3) == tool_end_events(
                                call,
                                (res, true),
                                final(self).batch_messages()[i],
                            )
                            &&& final(self).batch_advanced(
                                i + 1,
                                old(self).run_messages(),
                                old(self).context_messages(),
                                r.events.deep_view().skip(3),
                                r.request,
                            )
                        },
                        None => {
                            &&& r.events.deep_view() == Seq::<AgentEventView>::empty()
                            &&& final(self).phase() == LoopPhase::AwaitExecuted
                            &&& (r.request matches LoopRequest::ExecuteTool {
                                tool_index,
                                tool_call_id,
                                arguments: a,
                            } && resolve_tool(old(self).tools(), call->ToolCall_name) == Some(
                                tool_index as int,
                            ) && tool_call_id@ == call->ToolCall_id && a == arguments)
                            &&& final(self).batch_index() == i
                            &&& final(self).batch_outcomes() == old(self).batch_outcomes()
                            &&& final(self).batch_messages() == old(self).batch_messages()
                            &&& final(self).run_messages() == old(self).run_messages()
                            &&& final(self).context_messages() == old(self).context_messages()
                        },
                    }
                }
            }),
            old(self).batch_is_parallel() ==> ({
                let i = old(self).batch_preflight().len() as int;
                let call = old(self).batch_calls()[i];
                &&& i < old(self).batch_calls().len()
                &&& i < final(self).batch_preflight().len()
                &&& final(self).batch_preflight().take(i) == old(self).batch_preflight()
                &&& match blocked_outcome(before) {
                    Some(res) => final(self).batch_preflight()[i] == PreflightView::Immediate(res),
                    None => final(self).batch_preflight()[i] matches PreflightView::Prepared {
                        tool_index,
                        arguments: a,
                    } && resolve_tool(old(self).tools(), call->ToolCall_name) == Some(
                        tool_index as int,
                    ) && a == arguments,
                }
                &&& final(self).preflight_advanced(
                    i + 1,
                    old(self).run_messages(),
                    old(self).context_messages(),
                    r.events.deep_view(),
                    r.request,
                )
            }),
    {
        let mut events: Vec<AgentEvent> = Vec::new();
        if self.parallel_batch {
            let ghost pf0 = self.batch_preflight();
            let p = self.preflight.len();
            match blocked_result(before) {
                Some(result) => self.preflight.push(Preflight::Immediate(result)),
                None => self.preflight.push(
                    Preflight::Prepared { tool_index: self.tool_index, arguments },
                ),
            }
            let ghost pf1 = self.batch_preflight();
            proof {
                assert(pf1 =~= pf0.push(self.preflight@[p as int]@));
                assert(self.trace@ + events.deep_view() =~= self.trace@);
            }
            let request = self.advance_preflight(&mut events);
            proof {
                assert(self.batch_preflight()[p as int] == self.batch_preflight().take(
                    p + 1,
                )[p as int]);
                assert(self.batch_preflight().take(p as int) =~= pf1.take(p as int));
                assert(pf1.take(p as int) =~= pf0);
                assert(events.deep_view().skip(0) =~= events.deep_view());
            }
            return LoopStep { events, request };
        }
        let ghost c = self.call_index as int;
        let ghost o0 = self.batch_outcomes();
        let ghost m0 = self.batch_messages();
        let ghost t0 = self.trace@;
        match blocked_result(before) {
            Some(result) => {
                let call = self.tool_calls[self.call_index].clone();
                let fin = FinalizedToolCallOutcome { tool_call: call, result, is_error: true };
                let ghost fo = (fin.result@, fin.is_error);
                self.record_call(fin, &mut events);
                let ghost ee = events.deep_view();
                let ghost m_rec = self.batch_messages();
                proof {
                    lemma_tool_end_events(
                        self.tool_calls@[c]@,
                        fo,
                        self.tool_results@.last()@,
                    );
                    lemma_open_turn_extends(t0, ee, self.well_behaved@);
                    assert(events.deep_view() =~= Seq::<AgentEventView>::empty() + ee);
                    assert(self.batch_outcomes() =~= o0.push(fo));
                }
                let request = self.advance_batch(&mut events);
                proof {
                    assert(self.batch_outcomes().take(c + 1) == o0.push(fo));
                    assert(self.batch_outcomes()[c] == self.batch_outcomes().take(c + 1)[c]);
                    assert(self.batch_messages().take(c + 1) == m_rec);
                    assert(self.batch_messages()[c] == self.batch_messages().take(c + 1)[c]);
                    assert(m_rec[c] == self.tool_results@[c]@);
                    assert(self.batch_outcomes().take(c) =~= o0);
                    assert(self.batch_messages().take(c) =~= m0);
                    assert(events.deep_view().take(3) == ee);
                }
                LoopStep { events, request }
            },
            None => {
                proof {
                    let m = self.assistant_message->0@;
                    if let MessageView::Assistant { content, .. } = m {
                        lemma_tool_calls_in_are_calls(content);
                    }
                }
                let tool_call_id = match &self.tool_calls[self.call_index] {
                    ContentBlock::ToolCall { id, .. } => id.clone(),
                    _ => unreached(),
                };
                self.phase = LoopPhase::AwaitExecuted;
                assert(t0 + events.deep_view() =~= t0);
                LoopStep {
                    events,
                    request: LoopRequest::ExecuteTool {
                        tool_index: self.tool_index,
                        tool_call_id,
                        arguments,
                    },
                }
            },
        }
    }

    /// Takes the current call's result and the after-call hook's answer:
    /// the hook's overrides are applied, the call is finished, and the batch
    /// runs on.
    pub fn on_tool_executed(
        &mut self,
        result: AgentToolResult,
        after: Option<AfterToolCallResult>,
    ) -> (r: LoopStep)
        requires
            old(self).wf(),
            old(self).phase() == LoopPhase::AwaitExecuted,
        ensures
            final(self).wf(),
            final(self).trace() == old(self).trace() + r.events.deep_view(),
            final(self).initial_messages() == old(self).initial_messages(),
            final(self).streams_well_formed() == old(self).streams_well_formed(),
            final(self).tools() == old(self).tools(),
            final(self).tool_mode() == old(self).tool_mode(),
            !final(self).is_first_turn(),
            final(self).batch_calls() == old(self).batch_calls(),
            final(self).batch_assistant() == old(self).batch_assistant(),
            old(self).batch_index() < old(self).batch_calls().len(),
            final(self).batch_outcomes().take(old(self).batch_index()) == old(
                self,
            ).batch_outcomes(),
            final(self).batch_messages().take(old(self).batch_index()) == old(
                self,
            ).batch_messages(),
            ({
                let i = old(self).batch_index();
                let call = old(self).batch_calls()[i];
                let outcome = after_applied(result@, false, after);
                &&& final(self).batch_outcomes()[i] == outcome
                &&& 3 <= r.events.len()
                &&& r.events.deep_view().take(3) == tool_end_events(
                    call,
                    outcome,
                    final(self).batch_messages()[i],
                )
                &&& final(self).batch_advanced(
                    i + 1,
                    old(self).run_messages(),
                    old(self).context_messages(),
                    r.events.deep_view().skip(3),
                    r.request,
                )
            }),
    {
        let mut events: Vec<AgentEvent> = Vec::new();
        let ghost c = self.call_index as int;
        let ghost o0 = self.batch_outcomes();
        let ghost m0 = self.batch_messages();
        let ghost t0 = self.trace@;
        let call = self.tool_calls[self.call_index].clone();
        let fin = finalize_executed_tool_call(call, result, false, after);
        let ghost fo = (fin.result@, fin.is_error);
        self.record_call(fin, &mut events);
        let ghost ee = events.deep_view();
        let ghost m_rec = self.batch_messages();
        let ghost last = self.tool_results@.last()@;
        proof {
            lemma_tool_end_events(self.tool_calls@[c]@, fo, self.tool_results@.last()@);
            lemma_open_turn_extends(t0, ee, self.well_behaved@);
            assert(events.deep_view() =~= Seq::<AgentEventView>::empty() + ee);
            assert(self.batch_outcomes() =~= o0.push(fo));
        }
        let request = self.advance_batch(&mut events);
        proof {
            assert(self.batch_outcomes().take(c + 1) == o0.push(fo));
            assert(self.batch_outcomes()[c] == self.batch_outcomes().take(c + 1)[c]);
            assert(self.batch_messages().take(c + 1) == m_rec);
            assert(self.batch_messages()[c] == self.batch_messages().take(c + 1)[c]);
            assert(m_rec[c] == last);
            assert(self.batch_outcomes().take(c) =~= o0);
            assert(self.batch_messages().take(c) =~= m0);
            assert(events.deep_view().take(3) == ee);
        }
        LoopStep { events, request }
    }
}

impl AgentLoop {
    /// Takes the results of a concurrent batch's calls that ran and the
    /// after-call hook's answer to each, both in the order the calls were
    /// handed out. Every call of the batch is then finished, in the order of
    /// the batch: with its error result from preflighting, or with its tool's
    /// result and the hook's overrides applied. Then the turn ends.
    pub fn on_tools_executed(
        &mut self,
        results: Vec<AgentToolResult>,
        afters: Vec<Option<AfterToolCallResult>>,
    ) -> (r: LoopStep)
        requires
            old(self).wf(),
            old(self).phase() == LoopPhase::AwaitExecutedAll,
            results.len() == prepared_positions(old(self).batch_preflight()).len(),
            afters.len() == results.len(),
        ensures
            final(self).wf(),
            final(self).trace() == old(self).trace() + r.events.deep_view(),
            final(self).initial_messages() == old(self).initial_messages(),
            final(self).streams_well_formed() == old(self).streams_well_formed(),
            final(self).tools() == old(self).tools(),
            final(self).tool_mode() == old(self).tool_mode(),
            !final(self).is_first_turn(),
            final(self).batch_calls() == old(self).batch_calls(),
            final(self).batch_assistant() == old(self).batch_assistant(),
            old(self).batch_preflight().len() == old(self).batch_calls().len(),
            forall|k: int|
                0 <= k < old(self).batch_calls().len() ==> (#[trigger] final(self).batch_outcomes()[k])
                    == merged_outcome(
                    old(self).batch_preflight(),
                    results.deep_view(),
                    afters@,
                    k,
                ),
            final(self).batch_finished(
                old(self).run_messages(),
                old(self).context_messages(),
                r.events.deep_view(),
                r.request,
            ),
    {
        let ghost pf = self.batch_preflight();
        let ghost rs = results.deep_view();
        let ghost raw = results@;
        let ghost afs = afters@;
        let ghost s0 = *self;
        let ghost calls = self.tool_calls.deep_view();
        let ghost t0 = self.trace@;
        let mut results = results;
        let mut afters = afters;
        let mut events: Vec<AgentEvent> = Vec::new();
        let mut j: usize = 0;
        proof {
            assert forall|q: int| 0 <= q < raw.len() implies rs[q] == (#[trigger] raw[q])@ by {}
            assert(pf.take(0) =~= Seq::<PreflightView>::empty());
            let e = tool_ends(calls, self.batch_outcomes(), self.batch_messages(), 0, 0);
            assert(e =~= Seq::<AgentEventView>::empty());
            lemma_tool_ends(calls, self.batch_outcomes(), self.batch_messages(), 0, 0);
            assert(events.deep_view() =~= e);
            assert(results@ =~= raw.skip(0));
            assert(afters@ =~= afs.skip(0));
        }
        while self.call_index < self.tool_calls.len()
            invariant
                self.batch_core(),
                calls == self.tool_calls.deep_view(),
                *self == (AgentLoop {
                    call_index: self.call_index,
                    finalized: self.finalized,
                    tool_results: self.tool_results,
                    ..s0
                }),
                s0.parallel_batch,
                s0.preflight.len() == s0.tool_calls.len(),
                pf == s0.batch_preflight(),
                rs.len() == raw.len(),
                forall|q: int| 0 <= q < raw.len() ==> rs[q] == (#[trigger] raw[q])@,
                raw.len() == prepared_positions(pf).len(),
                afs.len() == raw.len(),
                raw.len() <= usize::MAX,
                j <= raw.len(),
                results@ == raw.skip(j as int),
                afters@ == afs.skip(j as int),
                j == prepared_positions(pf.take(self.call_index as int)).len(),
                events.deep_view() == tool_ends(
                    calls,
                    self.batch_outcomes(),
                    self.batch_messages(),
                    0,
                    self.call_index as int,
                ),
                keeps_turn_open(events.deep_view()),
                forall|k: int|
                    0 <= k < self.call_index ==> #[trigger] self.batch_outcomes()[k]
                        == merged_outcome(pf, rs, afs, k),
            decreases self.tool_calls.len() - self.call_index,
        {
            let c = self.call_index;
            let ghost o0 = self.batch_outcomes();
            let ghost m0 = self.batch_messages();
            let ghost j0 = j as int;
            proof {
                assert(pf.take(c + 1).drop_last() =~= pf.take(c as int));
                assert(pf.take(c + 1).last() == pf[c as int]);
                lemma_prepared_prefix(pf, c + 1);
                assert(o0.len() == c);
                assert(m0.len() == c);
                assert(pf[c as int] == self.preflight@[c as int]@);
            }
            let call = self.tool_calls[c].clone();
            let fin = match &self.preflight[c] {
                Preflight::Immediate(r) => FinalizedToolCallOutcome {
                    tool_call: call,
                    result: r.clone(),
                    is_error: true,
                },
                Preflight::Prepared { .. } => {
                    proof {
                        assert(pf[c as int] is Prepared);
                        assert(prepared_positions(pf.take(c + 1)) == prepared_positions(
                            pf.take(c as int),
                        ).push(c as int));
                    }
                    let res = results.remove(0);
                    let af = afters.remove(0);
                    proof {
                        assert(res == raw[j0]);
                        assert(af == afs[j0]);
                        assert(results@ =~= raw.skip(j0 + 1));
                        assert(afters@ =~= afs.skip(j0 + 1));
                    }
                    j = j + 1;
                    finalize_executed_tool_call(call, res, false, af)
                },
            };
            let ghost fo = (fin.result@, fin.is_error);
            assert(fo == merged_outcome(pf, rs, afs, c as int));
            self.record_call(fin, &mut events);
            proof {
                let o1 = self.batch_outcomes();
                let m1 = self.batch_messages();
                assert(o1 =~= o0.push(fo));
                assert(m1 =~= m0.push(m1[c as int]));
                assert forall|k: int| 0 <= k < c implies o1[k] == o0[k] && m1[k] == m0[k] by {}
                lemma_tool_ends_prefix(calls, o0, m0, o1, m1, 0, c as int);
                lemma_tool_ends(calls, o1, m1, 0, c + 1);
                assert(events.deep_view() =~= tool_ends(calls, o1, m1, 0, c + 1));
                assert forall|k: int| 0 <= k < c + 1 implies #[trigger] o1[k] == merged_outcome(
                    pf,
                    rs,
                    afs,
                    k,
                ) by {
                    if k < c {
                        assert(o1[k] == o0[k]);
                    }
                }
            }
        }
        let ghost ee = events.deep_view();
        let ghost o_end = self.batch_outcomes();
        proof {
            lemma_open_turn_extends(t0, ee, s0.well_behaved@);
        }
        let request = self.end_batch(&mut events);
        proof {
            let outcomes = self.batch_outcomes();
            let msgs = self.batch_messages();
            assert(outcomes == o_end);
            assert forall|k: int| 0 <= k < self.call_index implies is_result_message(
                #[trigger] msgs[k],
                calls[k],
                outcomes[k].0,
                outcomes[k].1,
            ) by {
                assert(msgs[k] == self.tool_results@[k]@);
                assert(outcomes[k] == (self.finalized@[k].result@, self.finalized@[k].is_error));
            }
        }
        LoopStep { events, request }
    }
}

/// The tools with every one marked to run concurrently.
pub open spec fn concurrent_tools(tools: Option<Seq<AgentToolInfo>>) -> Option<Seq<AgentToolInfo>> {
    match tools {
        Some(ts) => Some(
            ts.map_values(
                |t: AgentToolInfo|
                    AgentToolInfo {
                        name: t.name,
                        label: t.label,
                        description: t.description,
                        parameters: t.parameters,
                        execution_mode: ToolExecutionMode::Parallel,
                    },
            ),
        ),
        None => None,
    }
}

/// Marks every tool to run concurrently.
fn mark_concurrent(tools: Option<Vec<AgentToolInfo>>) -> (r: Option<Vec<AgentToolInfo>>)
    ensures
        tools_view(r) == concurrent_tools(tools_view(tools)),
{
    match tools {
        None => None,
        Some(ts) => {
            let ghost t0 = ts@;
            let ghost want = concurrent_tools(Some(t0))->0;
            let mut rest = ts;
            let mut out: Vec<AgentToolInfo> = Vec::new();
            while rest.len() > 0
                invariant
                    out@.len() + rest@.len() == t0.len(),
                    rest@ == t0.skip(out@.len() as int),
                    out@ == want.take(out@.len() as int),
                    want.len() == t0.len(),
                    forall|k: int| 0 <= k < t0.len() ==> #[trigger] want[k] == (AgentToolInfo {
                        execution_mode: ToolExecutionMode::Parallel,
                        ..t0[k]
                    }),
                decreases rest.len(),
            {
                let ghost n = out@.len() as int;
                let t = rest.remove(0);
                out.push(
                    AgentToolInfo {
                        name: t.name,
                        label: t.label,
                        description: t.description,
                        parameters: t.parameters,
                        execution_mode: ToolExecutionMode::Parallel,
                    },
                );
                assert(rest@ =~= t0.skip(n + 1));
                assert(out@ =~= want.take(n + 1));
            }
            assert(out@ =~= want);
            Some(out)
        },
    }
}

/// Among tools that all run concurrently, no call resolves to one that must
/// run sequentially.
proof fn lemma_concurrent_tools_not_sequential(
    tools: Option<Seq<AgentToolInfo>>,
    calls: Seq<ContentBlockView>,
)
    ensures
        !uses_sequential_tool(concurrent_tools(tools), calls),
{
    let ct = concurrent_tools(tools);
    assert forall|k: int| 0 <= k < calls.len() implies !match #[trigger] calls[k] {
        ContentBlockView::ToolCall { name, .. } => match resolve_tool(ct, name) {
            Some(i) => ct->0[i].execution_mode == ToolExecutionMode::Sequential,
            None => false,
        },
        _ => false,
    } by {
        if let ContentBlockView::ToolCall { name, .. } = calls[k] {
            if let Some(ts) = ct {
                lemma_first_tool_named(ts, name);
            }
        }
    }
}

impl AgentLoop {
    /// A loop for one assistant response to the context as it stands: it
    /// adds no prompt and runs every tool concurrently, so that a response's
    /// tool calls are only preflighted and nothing runs. The step opens the
    /// run and the turn, and asks for the response's stream.
    pub fn single_response(context: AgentContext) -> (r: (AgentLoop, LoopStep))
        ensures
            r.0.wf(),
            r.0.phase() == LoopPhase::Streaming,
            r.0.streams_well_formed(),
            r.0.streamed_partial() is None,
            r.0.trace() == r.1.events.deep_view(),
            r.1.events.deep_view() == seq![AgentEventView::AgentStart, AgentEventView::TurnStart],
            r.1.request is StreamAssistant,
            r.0.initial_messages() == context.messages.deep_view(),
            r.0.context_messages() == context.messages.deep_view(),
            r.0.run_messages() == Seq::<AgentMessageView>::empty(),
            r.0.tools() == concurrent_tools(tools_view(context.tools)),
            r.0.tool_mode() == ToolExecutionMode::Parallel,
            forall|calls: Seq<ContentBlockView>| !uses_sequential_tool(r.0.tools(), calls),
    {
        let ghost ms = context.messages.deep_view();
        let core = AgentContext {
            system_prompt: context.system_prompt,
            messages: context.messages,
            tools: mark_concurrent(context.tools),
        };
        let no_prompts: Vec<AgentMessage> = Vec::new();
        assert(no_prompts.deep_view() =~= Seq::<AgentMessageView>::empty());
        let (mut lp, first) = AgentLoop::start(no_prompts, core, ToolExecutionMode::Parallel);
        let no_steering: Vec<AgentMessage> = Vec::new();
        assert(no_steering.deep_view() =~= Seq::<AgentMessageView>::empty());
        let next = lp.on_steering(no_steering);
        proof {
            assert(message_pairs(Seq::<AgentMessageView>::empty()) =~= Seq::<AgentEventView>::empty());
            assert(first.events.deep_view() =~= seq![
                AgentEventView::AgentStart,
                AgentEventView::TurnStart,
            ]);
            assert(next.events.deep_view() =~= Seq::<AgentEventView>::empty());
            assert(lp.trace() =~= first.events.deep_view());
            assert(ms + Seq::<AgentMessageView>::empty() =~= ms);
            assert forall|calls: Seq<ContentBlockView>| !uses_sequential_tool(lp.tools(), calls) by {
                lemma_concurrent_tools_not_sequential(tools_view(context.tools), calls);
            }
        }
        (lp, LoopStep { events: first.events, request: next.request })
    }
}

/// Whether a single response reports an event: all but the ends of the turn
/// and of the run, and the starts of the tool calls it does not run.
pub fn single_response_reports(e: &AgentEvent) -> (b: bool)
    ensures
        b == !(e.deep_view() is TurnEnd || e.deep_view() is AgentEnd
            || e.deep_view() is ToolExecutionStart),
{
    match e {
        AgentEvent::TurnEnd { .. } => false,
        AgentEvent::AgentEnd { .. } => false,
        AgentEvent::ToolExecutionStart { .. } => false,
        _ => true,
    }
}

impl LoopRequest {
    /// Whether the request is for the assistant stream of the turn.
    pub fn asks_for_stream(&self) -> (b: bool)
        ensures
            b == (*self is StreamAssistant || *self is NextStreamEvent),
    {
        match self {
            LoopRequest::StreamAssistant => true,
            LoopRequest::NextStreamEvent => true,
            _ => false,
        }
    }
}

/// The response a single-response run delivered: the last of the run's
/// messages when it is a model message, or else the message of a stream that
/// ended without one.
pub fn single_response_message(new_messages: Vec<AgentMessage>) -> (m: Message)
    ensures
        ({
            let ms = new_messages.deep_view();
            if ms.len() > 0 && ms.last() is Llm {
                m@ == ms.last()->Llm_0
            } else {
                m@ == stream_ended_message()
            }
        }),
{
    let mut ms = new_messages;
    match ms.pop() {
        Some(last) => match last.into_llm_message() {
            Some(m) => m,
            None => make_stream_ended_message(),
        },
        None => make_stream_ended_message(),
    }
}

/// Copies a list of agent messages.
pub fn clone_agent_messages(v: &Vec<AgentMessage>) -> (r: Vec<AgentMessage>)
    ensures
        r.deep_view() == v.deep_view(),
{
    let mut r: Vec<AgentMessage> = Vec::new();
    let mut i: usize = 0;
    while i < v.len()
        invariant
            i <= v.len(),
            r.deep_view() == v.deep_view().take(i as int),
        decreases v.len() - i,
    {
        let ghost before = r.deep_view();
        r.push(v[i].clone());
        assert(r.deep_view() =~= before.push(v@[i as int].deep_view()));
        i = i + 1;
        assert(r.deep_view() =~= v.deep_view().take(i as int));
    }
    assert(v.deep_view().take(i as int) =~= v.deep_view());
    r
}

impl AgentLoop {
    /// Opens a turn: reports `TurnStart` unless it is the first turn, which
    /// the run's start already opened, reports and takes the pending
    /// messages, and asks for an assistant response.
    fn begin_turn(&mut self, msgs: Vec<AgentMessage>, events: &mut Vec<AgentEvent>)
        requires
            old(self).wf(),
            old(self).phase == LoopPhase::AwaitSteering || old(self).phase
                == LoopPhase::AwaitFollowUp,
            old(self).phase == LoopPhase::AwaitFollowUp ==> !old(self).first_run,
            old(events).len() == 0,
        ensures
            final(self).wf(),
            final(self).phase == LoopPhase::Streaming,
            final(self).trace@ == old(self).trace@ + final(events).deep_view(),
            final(events).deep_view() == (if old(self).first_run {
                Seq::<AgentEventView>::empty()
            } else {
                seq![AgentEventView::TurnStart]
            }) + message_pairs(msgs.deep_view()),
            final(self).context.messages.deep_view() == old(self).context.messages.deep_view()
                + msgs.deep_view(),
            final(self).new_messages.deep_view() == old(self).new_messages.deep_view()
                + msgs.deep_view(),
            final(self).initial == old(self).initial,
            final(self).well_behaved == old(self).well_behaved,
            final(self).has_more_tool_calls == old(self).has_more_tool_calls,
            final(self).tool_execution == old(self).tool_execution,
            final(self).context.tools == old(self).context.tools,
            final(self).partial_message is None,
    {
        let ghost t0 = self.trace@;
        let ghost was_first = self.first_run;
        let ghost c0 = self.context.messages.deep_view();
        let ghost n0 = self.new_messages.deep_view();
        if !self.first_run {
            events.push(AgentEvent::TurnStart);
        } else {
            self.first_run = false;
        }
        let ghost head = events.deep_view();
        assert(head =~= if was_first {
            Seq::<AgentEventView>::empty()
        } else {
            seq![AgentEventView::TurnStart]
        });
        self.take_messages(msgs, events);
        self.phase = LoopPhase::Streaming;
        self.partial_message = None;
        self.added_partial = false;
        proof {
            let open = ProtocolState::Running { turn_open: true, message_open: false };
            if self.well_behaved@ {
            lemma_protocol_run_concat(ProtocolState::Idle, t0, events.deep_view());
            lemma_protocol_run_concat(protocol_run(ProtocolState::Idle, t0), head, message_pairs(msgs.deep_view()));
            if !was_first {
                lemma_protocol_run_one(protocol_run(ProtocolState::Idle, t0), AgentEventView::TurnStart);
            }
            assert(protocol_run(protocol_run(ProtocolState::Idle, t0), head) == open);
            lemma_message_pairs_protocol(msgs.deep_view());
            }
        }
        proof {
            lemma_message_pairs_turn_ends(msgs.deep_view());
            assert(turn_ends_ok(head)) by {
                assert forall|i: int| 0 <= i < head.len() implies turn_end_ok(#[trigger] head[i]) by {
                    assert(!was_first && i == 0);
                }
            }
            lemma_turn_ends_concat(head, message_pairs(msgs.deep_view()));
            lemma_turn_ends_concat(t0, events.deep_view());
        }
        self.trace = Ghost(self.trace@ + events.deep_view());
        proof {
            if self.well_behaved@ {
                assert(c0 == self.initial@ + n0);
                assert(self.context.messages.deep_view() =~= self.initial@
                    + self.new_messages.deep_view());
            }
        }
    }

    /// Starts a run on prompts: reports `AgentStart`, `TurnStart` and each
    /// prompt, appends the prompts to the context, and asks for the steering
    /// queue.
    pub fn start(
        prompts: Vec<AgentMessage>,
        context: AgentContext,
        tool_execution: ToolExecutionMode,
    ) -> (r: (AgentLoop, LoopStep))
        ensures
            r.0.wf(),
            r.0.phase() == LoopPhase::AwaitSteering,
            r.0.is_first_turn(),
            r.0.more_tool_calls(),
            r.0.streams_well_formed(),
            r.0.trace() == r.1.events.deep_view(),
            r.1.events.deep_view() == seq![AgentEventView::AgentStart, AgentEventView::TurnStart]
                + message_pairs(prompts.deep_view()),
            r.1.request is SteeringMessages,
            r.0.initial_messages() == context.messages.deep_view(),
            r.0.context_messages() == context.messages.deep_view() + prompts.deep_view(),
            r.0.run_messages() == prompts.deep_view(),
            r.0.tools() == tools_view(context.tools),
            r.0.tool_mode() == tool_execution,
    {
        let mut lp = AgentLoop::new_loop(context, tool_execution);
        let mut events: Vec<AgentEvent> = Vec::new();
        events.push(AgentEvent::AgentStart);
        events.push(AgentEvent::TurnStart);
        let ghost head = events.deep_view();
        assert(head =~= seq![AgentEventView::AgentStart, AgentEventView::TurnStart]);
        assert(lp.new_messages.deep_view() =~= Seq::<AgentMessageView>::empty());
        lp.take_messages(prompts, &mut events);
        proof {
            lemma_protocol_run_concat(ProtocolState::Idle, head, message_pairs(prompts.deep_view()));
            lemma_protocol_run_two(ProtocolState::Idle, AgentEventView::AgentStart, AgentEventView::TurnStart);
            lemma_message_pairs_protocol(prompts.deep_view());
            lemma_message_pairs_turn_ends(prompts.deep_view());
            lemma_turn_ends_two(AgentEventView::AgentStart, AgentEventView::TurnStart);
            lemma_turn_ends_concat(head, message_pairs(prompts.deep_view()));
            assert(Seq::<AgentEventView>::empty() + events.deep_view() =~= events.deep_view());
            assert(Seq::<AgentMessageView>::empty() + prompts.deep_view() =~= prompts.deep_view());
        }
        lp.trace = Ghost(events.deep_view());
        (lp, LoopStep { events, request: LoopRequest::SteeringMessages })
    }

    /// Continues a run from a context whose last message is not an assistant
    /// message: reports `AgentStart` and `TurnStart`, and asks for the
    /// steering queue.
    pub fn continue_from(context: AgentContext, tool_execution: ToolExecutionMode) -> (r: (
        AgentLoop,
        LoopStep,
    ))
        requires
            context.messages.len() > 0,
            !(context.messages@.last() is Assistant),
        ensures
            r.0.wf(),
            r.0.phase() == LoopPhase::AwaitSteering,
            r.0.is_first_turn(),
            r.0.more_tool_calls(),
            r.0.streams_well_formed(),
            r.0.trace() == r.1.events.deep_view(),
            r.1.events.deep_view() == seq![AgentEventView::AgentStart, AgentEventView::TurnStart],
            r.1.request is SteeringMessages,
            r.0.initial_messages() == context.messages.deep_view(),
            r.0.context_messages() == context.messages.deep_view(),
            r.0.run_messages() == Seq::<AgentMessageView>::empty(),
            r.0.tools() == tools_view(context.tools),
            r.0.tool_mode() == tool_execution,
    {
        let mut lp = AgentLoop::new_loop(context, tool_execution);
        let mut events: Vec<AgentEvent> = Vec::new();
        events.push(AgentEvent::AgentStart);
        events.push(AgentEvent::TurnStart);
        proof {
            assert(events.deep_view() =~= seq![AgentEventView::AgentStart, AgentEventView::TurnStart]);
            lemma_protocol_run_two(ProtocolState::Idle, AgentEventView::AgentStart, AgentEventView::TurnStart);
            lemma_turn_ends_two(AgentEventView::AgentStart, AgentEventView::TurnStart);
            assert(lp.new_messages.deep_view() =~= Seq::<AgentMessageView>::empty());
            assert(lp.context.messages.deep_view() =~= lp.initial@ + lp.new_messages.deep_view());
        }
        lp.trace = Ghost(events.deep_view());
        (lp, LoopStep { events, request: LoopRequest::SteeringMessages })
    }

    fn new_loop(context: AgentContext, tool_execution: ToolExecutionMode) -> (lp: AgentLoop)
        ensures
            lp.phase == LoopPhase::AwaitSteering,
            lp.first_run,
            lp.has_more_tool_calls,
            lp.well_behaved@,
            lp.trace@ == Seq::<AgentEventView>::empty(),
            lp.initial@ == context.messages.deep_view(),
            lp.context.messages.deep_view() == context.messages.deep_view(),
            lp.new_messages.deep_view() == Seq::<AgentMessageView>::empty(),
            lp.tool_execution == tool_execution,
            lp.context.tools == context.tools,
            lp.partial_message is None,
            !lp.added_partial,
    {
        let ghost init = context.messages.deep_view();
        let lp = AgentLoop {
            context,
            new_messages: Vec::new(),
            first_run: true,
            has_more_tool_calls: true,
            tool_execution,
            phase: LoopPhase::AwaitSteering,
            partial_message: None,
            added_partial: false,
            assistant_message: None,
            tool_calls: Vec::new(),
            call_index: 0,
            tool_index: 0,
            finalized: Vec::new(),
            tool_results: Vec::new(),
            parallel_batch: false,
            preflight: Vec::new(),
            trace: Ghost(Seq::empty()),
            initial: Ghost(init),
            well_behaved: Ghost(true),
        };
        assert(lp.new_messages.deep_view() =~= Seq::<AgentMessageView>::empty());
        lp
    }

    /// Takes the steering queue's messages: while the last turn asked for more
    /// tool calls or messages are pending, opens a turn with them and asks for
    /// an assistant response; otherwise asks for the follow-up queue.
    pub fn on_steering(&mut self, msgs: Vec<AgentMessage>) -> (r: LoopStep)
        requires
            old(self).wf(),
            old(self).phase() == LoopPhase::AwaitSteering,
        ensures
            final(self).wf(),
            final(self).trace() == old(self).trace() + r.events.deep_view(),
            final(self).initial_messages() == old(self).initial_messages(),
            final(self).streams_well_formed() == old(self).streams_well_formed(),
            final(self).tools() == old(self).tools(),
            final(self).tool_mode() == old(self).tool_mode(),
            !final(self).is_first_turn(),
            old(self).more_tool_calls() || msgs.len() > 0 ==> {
                &&& final(self).phase() == LoopPhase::Streaming
                &&& final(self).streamed_partial() is None
                &&& r.request is StreamAssistant
                &&& r.events.deep_view() == (if old(self).is_first_turn() {
                    Seq::<AgentEventView>::empty()
                } else {
                    seq![AgentEventView::TurnStart]
                }) + message_pairs(msgs.deep_view())
                &&& final(self).context_messages() == old(self).context_messages()
                    + msgs.deep_view()
                &&& final(self).run_messages() == old(self).run_messages() + msgs.deep_view()
            },
            !(old(self).more_tool_calls() || msgs.len() > 0) ==> {
                &&& final(self).phase() == LoopPhase::AwaitFollowUp
                &&& r.request is FollowUpMessages
                &&& r.events.deep_view() == Seq::<AgentEventView>::empty()
                &&& final(self).context_messages() == old(self).context_messages()
                &&& final(self).run_messages() == old(self).run_messages()
            },
    {
        let mut events: Vec<AgentEvent> = Vec::new();
        if self.has_more_tool_calls || msgs.len() > 0 {
            self.begin_turn(msgs, &mut events);
            LoopStep { events, request: LoopRequest::StreamAssistant }
        } else {
            self.phase = LoopPhase::AwaitFollowUp;
            assert(self.trace@ =~= self.trace@ + events.deep_view());
            LoopStep { events, request: LoopRequest::FollowUpMessages }
        }
    }

    /// Takes the follow-up queue's messages: if there are any, opens a turn
    /// with them; otherwise reports `AgentEnd` with the run's messages and
    /// finishes.
    pub fn on_follow_up(&mut self, msgs: Vec<AgentMessage>) -> (r: LoopStep)
        requires
            old(self).wf(),
            old(self).phase() == LoopPhase::AwaitFollowUp,
        ensures
            final(self).wf(),
            final(self).trace() == old(self).trace() + r.events.deep_view(),
            final(self).initial_messages() == old(self).initial_messages(),
            final(self).streams_well_formed() == old(self).streams_well_formed(),
            final(self).tools() == old(self).tools(),
            final(self).tool_mode() == old(self).tool_mode(),
            msgs.len() > 0 ==> {
                &&& final(self).phase() == LoopPhase::Streaming
                &&& final(self).streamed_partial() is None
                &&& r.request is StreamAssistant
                &&& r.events.deep_view() == seq![AgentEventView::TurnStart] + message_pairs(
                    msgs.deep_view(),
                )
                &&& final(self).context_messages() == old(self).context_messages()
                    + msgs.deep_view()
                &&& final(self).run_messages() == old(self).run_messages() + msgs.deep_view()
            },
            msgs.len() == 0 ==> {
                &&& final(self).phase() == LoopPhase::Finished
                &&& r.request is Finished
                &&& r.events.deep_view() == seq![
                    AgentEventView::AgentEnd { messages: old(self).run_messages() },
                ]
                &&& final(self).context_messages() == old(self).context_messages()
                &&& final(self).run_messages() == old(self).run_messages()
            },
    {
        let mut events: Vec<AgentEvent> = Vec::new();
        if msgs.len() > 0 {
            self.has_more_tool_calls = true;
            self.begin_turn(msgs, &mut events);
            LoopStep { events, request: LoopRequest::StreamAssistant }
        } else {
            let ghost t0 = self.trace@;
            events.push(AgentEvent::AgentEnd { messages: clone_agent_messages(&self.new_messages) });
            self.phase = LoopPhase::Finished;
            proof {
                lemma_protocol_run_concat(ProtocolState::Idle, t0, events.deep_view());
                lemma_protocol_run_one(protocol_run(ProtocolState::Idle, t0), events.deep_view()[0]);
                assert(events.deep_view() =~= seq![events.deep_view()[0]]);
                assert(turn_ends_ok(events.deep_view())) by {
                    assert forall|i: int| 0 <= i < events.deep_view().len() implies turn_end_ok(
                        #[trigger] events.deep_view()[i],
                    ) by {
                        assert(i == 0);
                    }
                }
                lemma_turn_ends_concat(t0, events.deep_view());
            }
            self.trace = Ghost(self.trace@ + events.deep_view());
            LoopStep { events, request: LoopRequest::Finished }
        }
    }
}

/// The events of a run follow the protocol: between `AgentStart` and
/// `AgentEnd`, turns open and close without nesting, messages open and close
/// inside turns, only an open message is updated, and tool executions are
/// reported inside a turn. A finished run has reported its `AgentEnd`; an
/// unfinished one stands between its start and its end. This holds as long
/// as every assistant stream opened its message at most once and delivered
/// a message.
pub proof fn law_events_follow_protocol(lp: &AgentLoop)
    requires
        lp.wf(),
        lp.streams_well_formed(),
    ensures
        lp.phase() == LoopPhase::Finished ==> protocol_run(ProtocolState::Idle, lp.trace())
            == ProtocolState::Ended,
        lp.phase() != LoopPhase::Finished ==> protocol_run(
            ProtocolState::Idle,
            lp.trace(),
        ) is Running,
{
}

proof fn lemma_tool_starts_index(calls: Seq<ContentBlockView>, from: int, to: int)
    requires
        from <= to,
    ensures
        tool_starts(calls, from, to).len() == to - from,
        forall|i: int|
            0 <= i < to - from ==> #[trigger] tool_starts(calls, from, to)[i] == tool_start_event(
                calls[from + i],
            ),
    decreases to - from,
{
    if to > from {
        lemma_tool_starts_index(calls, from, to - 1);
    }
}

proof fn lemma_tool_ends_index(
    calls: Seq<ContentBlockView>,
    outcomes: Seq<(AgentToolResultView, bool)>,
    msgs: Seq<AgentMessageView>,
    from: int,
    to: int,
)
    requires
        from <= to,
    ensures
        tool_ends(calls, outcomes, msgs, from, to).len() == 3 * (to - from),
        forall|k: int|
            0 <= k < to - from ==> #[trigger] tool_ends(calls, outcomes, msgs, from, to).subrange(
                3 * k,
                3 * k + 3,
            ) == tool_end_events(calls[from + k], outcomes[from + k], msgs[from + k]),
    decreases to - from,
{
    if to > from {
        lemma_tool_ends_index(calls, outcomes, msgs, from, to - 1);
        let a = tool_ends(calls, outcomes, msgs, from, to - 1);
        let b = tool_end_events(calls[to - 1], outcomes[to - 1], msgs[to - 1]);
        let e = tool_ends(calls, outcomes, msgs, from, to);
        assert(e == a + b);
        assert forall|k: int| 0 <= k < to - from implies #[trigger] e.subrange(3 * k, 3 * k + 3)
            == tool_end_events(calls[from + k], outcomes[from + k], msgs[from + k]) by {
            if k < to - 1 - from {
                assert(e.subrange(3 * k, 3 * k + 3) =~= a.subrange(3 * k, 3 * k + 3));
            } else {
                assert(e.subrange(3 * k, 3 * k + 3) =~= b);
            }
        }
    }
}

/// The starts a concurrent batch reports while its calls are preflighted one
/// after the other add up: those of calls `a` to `b`, then those of calls `b`
/// to `c`, are those of calls `a` to `c`.
pub proof fn law_tool_starts_compose(calls: Seq<ContentBlockView>, a: int, b: int, c: int)
    requires
        a <= b <= c,
    ensures
        tool_starts(calls, a, b) + tool_starts(calls, b, c) == tool_starts(calls, a, c),
    decreases c - b,
{
    if c == b {
        assert(tool_starts(calls, a, b) + tool_starts(calls, b, c) =~= tool_starts(calls, a, c));
    } else {
        law_tool_starts_compose(calls, a, b, c - 1);
        assert(tool_starts(calls, a, b) + tool_starts(calls, b, c) =~= (tool_starts(calls, a, b)
            + tool_starts(calls, b, c - 1)).push(tool_start_event(calls[c - 1])));
    }
}

/// A concurrent batch of `n` calls reports the start of every call, in the
/// order of the batch, before the end of any; then each call's end with its
/// result message, in the order of the batch too.
pub proof fn law_concurrent_batch_starts_precede_ends(
    calls: Seq<ContentBlockView>,
    outcomes: Seq<(AgentToolResultView, bool)>,
    msgs: Seq<AgentMessageView>,
)
    ensures
        ({
            let n = calls.len() as int;
            let evs = tool_starts(calls, 0, n) + tool_ends(calls, outcomes, msgs, 0, n);
            &&& evs.len() == 4 * n
            &&& forall|i: int| 0 <= i < n ==> #[trigger] evs[i] == tool_start_event(calls[i])
            &&& forall|k: int|
                0 <= k < n ==> #[trigger] evs.subrange(n + 3 * k, n + 3 * k + 3)
                    == tool_end_events(calls[k], outcomes[k], msgs[k])
        }),
{
    let n = calls.len() as int;
    let starts = tool_starts(calls, 0, n);
    let ends = tool_ends(calls, outcomes, msgs, 0, n);
    let evs = starts + ends;
    lemma_tool_starts_index(calls, 0, n);
    lemma_tool_ends_index(calls, outcomes, msgs, 0, n);
    assert forall|i: int| 0 <= i < n implies #[trigger] evs[i] == tool_start_event(calls[i]) by {
        assert(evs[i] == starts[i]);
    }
    assert forall|k: int| 0 <= k < n implies #[trigger] evs.subrange(n + 3 * k, n + 3 * k + 3)
        == tool_end_events(calls[k], outcomes[k], msgs[k]) by {
        assert(evs.subrange(n + 3 * k, n + 3 * k + 3) =~= ends.subrange(3 * k, 3 * k + 3));
    }
}

/// Every `TurnEnd` a run reports carries, in order, one tool result message
/// answering each tool call of its assistant message (same id and name), or
/// none when that message ended the run.
pub proof fn law_turn_end_answers_tool_calls(lp: &AgentLoop, i: int)
    requires
        lp.wf(),
        0 <= i < lp.trace().len(),
        lp.trace()[i] is TurnEnd,
    ensures
        lp.trace()[i]->TurnEnd_message is Llm,
        turn_end_ok(lp.trace()[i]),
{
}

/// The transcript is the context's messages when the run began, followed by
/// the messages the run added, and, while a response streams, by the message
/// streamed so far. This holds as long as every assistant stream opened its
/// message at most once and delivered a message.
pub proof fn law_transcript_is_initial_plus_run(lp: &AgentLoop)
    requires
        lp.wf(),
        lp.streams_well_formed(),
    ensures
        lp.phase() == LoopPhase::Streaming && lp.streamed_partial() is Some
            ==> lp.context_messages() == lp.initial_messages() + lp.run_messages().push(
            AgentMessageView::Llm(lp.streamed_partial()->0),
        ),
        !(lp.phase() == LoopPhase::Streaming && lp.streamed_partial() is Some)
            ==> lp.context_messages() == lp.initial_messages() + lp.run_messages(),
{
    if lp.phase() == LoopPhase::Streaming && lp.streamed_partial() is Some {
        assert(lp.initial_messages() + lp.run_messages() + seq![
            AgentMessageView::Llm(lp.streamed_partial()->0),
        ] =~= lp.initial_messages() + lp.run_messages().push(
            AgentMessageView::Llm(lp.streamed_partial()->0),
        ));
    }
}

/// A finished run's last event is `AgentEnd`, carrying every message the run added.
pub proof fn law_agent_end_carries_run_messages(lp: &AgentLoop)
    requires
        lp.wf(),
        lp.phase() == LoopPhase::Finished,
    ensures
        lp.trace().len() > 0,
        lp.trace().last() == (AgentEventView::AgentEnd { messages: lp.run_messages() }),
{
}

/// The message a stream that ended without any response stands for.
pub open spec fn stream_ended_message() -> MessageView {
    MessageView::Assistant {
        content: Seq::empty(),
        api: Seq::empty(),
        provider: Seq::empty(),
        model: Seq::empty(),
        response_id: None,
        usage: zero_usage(),
        stop_reason: StopReason::Error,
        error_message: Some("Stream ended without response"@),
        timestamp: 0,
    }
}

/// The message a stream that ended without any response stands for.
pub fn make_stream_ended_message() -> (m: Message)
    ensures
        m@ == stream_ended_message(),
{
    let content: Vec<ContentBlock> = Vec::new();
    assert(content.deep_view() =~= Seq::<ContentBlockView>::empty());
    Message::Assistant {
        content,
        api: String::new(),
        provider: String::new(),
        model: String::new(),
        response_id: None,
        usage: Usage::default(),
        stop_reason: StopReason::Error,
        error_message: Some("Stream ended without response".to_owned()),
        timestamp: 0,
    }
}

/// The model context a turn streams with: the system prompt, the model
/// messages the application made of the transcript, and the tools offered.
pub fn llm_context(context: &AgentContext, llm_messages: Vec<Message>) -> (c: Context)
    ensures
        c.system_prompt matches Some(p) && p@ == context.system_prompt@,
        c.messages.deep_view() == llm_messages.deep_view(),
        context.tools is None ==> c.tools is None,
        context.tools matches Some(ts) ==> c.tools matches Some(cs) && cs.len() == ts.len()
            && forall|i: int|
            0 <= i < ts.len() ==> {
                &&& (#[trigger] cs@[i]).name@ == ts@[i].name@
                &&& cs@[i].description@ == ts@[i].description@
                &&& cs@[i].parameters == ts@[i].parameters
            },
{
    let tools = match &context.tools {
        None => None,
        Some(ts) => {
            let mut cs: Vec<Tool> = Vec::new();
            let mut i: usize = 0;
            while i < ts.len()
                invariant
                    i <= ts.len(),
                    cs.len() == i,
                    forall|j: int|
                        0 <= j < i ==> {
                            &&& (#[trigger] cs@[j]).name@ == ts@[j].name@
                            &&& cs@[j].description@ == ts@[j].description@
                            &&& cs@[j].parameters == ts@[j].parameters
                        },
                decreases ts.len() - i,
            {
                cs.push(
                    Tool {
                        name: ts[i].name.clone(),
                        description: ts[i].description.clone(),
                        parameters: clone_json(&ts[i].parameters),
                    },
                );
                i = i + 1;
            }
            Some(cs)
        },
    };
    Context { system_prompt: Some(context.system_prompt.clone()), messages: llm_messages, tools }
}

/// The key a stream is opened with: the one the configuration resolves for
/// the provider, else the one of the stream options.
pub fn resolve_api_key(resolved: Option<String>, from_options: Option<String>) -> (k: Option<String>)
    ensures
        k == (if resolved is Some {
            resolved
        } else {
            from_options
        }),
{
    match resolved {
        Some(k) => Some(k),
        None => from_options,
    }
}

/// An assistant message that stopped on an error or was aborted ends its
/// turn, with no tool result, and then the run, as soon as it is delivered:
/// none of its tool calls is run. An assistant message that stopped for any
/// other reason does not end the run.
pub proof fn law_error_or_abort_ends_the_run(
    lp: &AgentLoop,
    run0: Seq<AgentMessageView>,
    ctx0: Seq<AgentMessageView>,
    m: MessageView,
    evs: Seq<AgentEventView>,
    req: LoopRequest,
)
    requires
        lp.message_handled(run0, ctx0, m, evs, req),
        m is Assistant,
    ensures
        m->Assistant_stop_reason == StopReason::Error || m->Assistant_stop_reason
            == StopReason::Aborted ==> {
            &&& req is Finished
            &&& lp.phase() == LoopPhase::Finished
            &&& evs == seq![
                AgentEventView::TurnEnd {
                    message: AgentMessageView::Llm(m),
                    tool_results: Seq::empty(),
                },
                AgentEventView::AgentEnd { messages: run0.push(AgentMessageView::Llm(m)) },
            ]
        },
        !(m->Assistant_stop_reason == StopReason::Error || m->Assistant_stop_reason
            == StopReason::Aborted) ==> !(req is Finished) && lp.phase() != LoopPhase::Finished,
{
}

/// Every streamed event but `Start`, `Done` and `Error` is an update: it
/// carries the partial message that replaces the streamed one. `Done` and
/// `Error` end the stream with the message they carry, and `Start` opens it.
pub proof fn law_stream_event_kinds(e: EventView)
    ensures
        e is Start ==> update_partial(e) is None && terminal_message(e) is None,
        e matches EventView::Done { message, .. } ==> update_partial(e) is None
            && terminal_message(e) == Some(message),
        e matches EventView::Error { error, .. } ==> update_partial(e) is None
            && terminal_message(e) == Some(error),
        e matches EventView::TextStart { partial, .. } ==> update_partial(e) == Some(partial),
        e matches EventView::TextDelta { partial, .. } ==> update_partial(e) == Some(partial),
        e matches EventView::TextEnd { partial, .. } ==> update_partial(e) == Some(partial),
        e matches EventView::ThinkingStart { partial, .. } ==> update_partial(e) == Some(partial),
        e matches EventView::ThinkingDelta { partial, .. } ==> update_partial(e) == Some(partial),
        e matches EventView::ThinkingEnd { partial, .. } ==> update_partial(e) == Some(partial),
        e matches EventView::ToolCallStart { partial, .. } ==> update_partial(e) == Some(partial),
        e matches EventView::ToolCallDelta { partial, .. } ==> update_partial(e) == Some(partial),
        e matches EventView::ToolCallEnd { partial, .. } ==> update_partial(e) == Some(partial),
{
}

} // verus!
