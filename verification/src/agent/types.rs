//! The agent's messages, events, tools and state.
use vstd::prelude::*;

use crate::json::{clone_json, null_json};
use crate::message::{
    ContentBlock, ContentBlockView, Message, MessageView, UserContent, clone_blocks,
    clone_string_opt,
};
use crate::stream::{AssistantMessageEvent, EventView};
use crate::types::Model;

verus! {

/// An application-defined message: the library reads its timestamp; its
/// payload stays with the application, found again by `key`.
#[derive(Debug, Clone, Copy, PartialEq, Eq, Structural)]
pub struct CustomMessage {
    pub key: u64,
    pub timestamp: u64,
}

/// What the library reads of an application-defined message.
pub trait CustomAgentMessage {
    /// When the message was made, in milliseconds since the Unix epoch.
    fn timestamp(&self) -> u64;
}

impl CustomAgentMessage for CustomMessage {
    fn timestamp(&self) -> (t: u64)
        ensures
            t == self.timestamp,
    {
        self.timestamp
    }
}

/// A message of the agent's transcript: a model message or a custom one.
#[derive(Debug)]
pub enum AgentMessage {
    User { content: UserContent, timestamp: u64 },
    Assistant {
        content: Vec<ContentBlock>,
        api: String,
        provider: String,
        model: String,
        response_id: Option<String>,
        usage: crate::types::Usage,
        stop_reason: crate::message::StopReason,
        error_message: Option<String>,
        timestamp: u64,
    },
    ToolResult {
        tool_call_id: String,
        tool_name: String,
        content: Vec<ContentBlock>,
        is_error: bool,
        timestamp: u64,
    },
    Custom(CustomMessage),
}

/// The value of an agent message: the model message it is, or a custom message.
pub enum AgentMessageView {
    Llm(MessageView),
    Custom(CustomMessage),
}

impl DeepView for AgentMessage {
    type V = AgentMessageView;

    open spec fn deep_view(&self) -> AgentMessageView {
        match self {
            AgentMessage::User { content, timestamp } => AgentMessageView::Llm(
                MessageView::User { content: content@, timestamp: *timestamp },
            ),
            AgentMessage::Assistant {
                content,
                api,
                provider,
                model,
                response_id,
                usage,
                stop_reason,
                error_message,
                timestamp,
            } => AgentMessageView::Llm(
                MessageView::Assistant {
                    content: content.deep_view(),
                    api: api@,
                    provider: provider@,
                    model: model@,
                    response_id: response_id.deep_view(),
                    usage: *usage,
                    stop_reason: *stop_reason,
                    error_message: error_message.deep_view(),
                    timestamp: *timestamp,
                },
            ),
            AgentMessage::ToolResult { tool_call_id, tool_name, content, is_error, timestamp } =>
                AgentMessageView::Llm(
                MessageView::ToolResult {
                    tool_call_id: tool_call_id@,
                    tool_name: tool_name@,
                    content: content.deep_view(),
                    is_error: *is_error,
                    timestamp: *timestamp,
                },
            ),
            AgentMessage::Custom(c) => AgentMessageView::Custom(*c),
        }
    }
}

impl View for AgentMessage {
    type V = AgentMessageView;

    open spec fn view(&self) -> AgentMessageView {
        self.deep_view()
    }
}

/// The timestamp of an agent message.
pub open spec fn agent_message_timestamp(m: AgentMessageView) -> u64 {
    match m {
        AgentMessageView::Llm(MessageView::User { timestamp, .. }) => timestamp,
        AgentMessageView::Llm(MessageView::Assistant { timestamp, .. }) => timestamp,
        AgentMessageView::Llm(MessageView::ToolResult { timestamp, .. }) => timestamp,
        AgentMessageView::Custom(c) => c.timestamp,
    }
}

impl Clone for AgentMessage {
    fn clone(&self) -> (r: Self)
        ensures
            r@ == self@,
    {
        match self {
            AgentMessage::User { content, timestamp } => AgentMessage::User {
                content: content.clone(),
                timestamp: *timestamp,
            },
            AgentMessage::Assistant {
                content,
                api,
                provider,
                model,
                response_id,
                usage,
                stop_reason,
                error_message,
                timestamp,
            } => AgentMessage::Assistant {
                content: clone_blocks(content),
                api: api.clone(),
                provider: provider.clone(),
                model: model.clone(),
                response_id: clone_string_opt(response_id),
                usage: *usage,
                stop_reason: *stop_reason,
                error_message: clone_string_opt(error_message),
                timestamp: *timestamp,
            },
            AgentMessage::ToolResult { tool_call_id, tool_name, content, is_error, timestamp } =>
                AgentMessage::ToolResult {
                tool_call_id: tool_call_id.clone(),
                tool_name: tool_name.clone(),
                content: clone_blocks(content),
                is_error: *is_error,
                timestamp: *timestamp,
            },
            AgentMessage::Custom(c) => AgentMessage::Custom(*c),
        }
    }
}

impl AgentMessage {
    /// The timestamp of the message.
    pub fn timestamp(&self) -> (t: u64)
        ensures
            t == agent_message_timestamp(self@),
    {
        match self {
            AgentMessage::User { timestamp, .. } => *timestamp,
            AgentMessage::Assistant { timestamp, .. } => *timestamp,
            AgentMessage::ToolResult { timestamp, .. } => *timestamp,
            AgentMessage::Custom(c) => CustomAgentMessage::timestamp(c),
        }
    }

    /// The model message this is; none for a custom message.
    pub fn into_llm_message(self) -> (r: Option<Message>)
        ensures
            match self@ {
                AgentMessageView::Llm(m) => r matches Some(x) && x@ == m,
                AgentMessageView::Custom(_) => r is None,
            },
    {
        match self {
            AgentMessage::User { content, timestamp } => Some(Message::User { content, timestamp }),
            AgentMessage::Assistant {
                content,
                api,
                provider,
                model,
                response_id,
                usage,
                stop_reason,
                error_message,
                timestamp,
            } => Some(
                Message::Assistant {
                    content,
                    api,
                    provider,
                    model,
                    response_id,
                    usage,
                    stop_reason,
                    error_message,
                    timestamp,
                },
            ),
            AgentMessage::ToolResult { tool_call_id, tool_name, content, is_error, timestamp } =>
                Some(Message::ToolResult { tool_call_id, tool_name, content, is_error, timestamp }),
            AgentMessage::Custom(_) => None,
        }
    }

    /// The agent message holding a model message.
    pub fn from_message(msg: Message) -> (r: AgentMessage)
        ensures
            r@ == AgentMessageView::Llm(msg@),
    {
        match msg {
            Message::User { content, timestamp } => AgentMessage::User { content, timestamp },
            Message::Assistant {
                content,
                api,
                provider,
                model,
                response_id,
                usage,
                stop_reason,
                error_message,
                timestamp,
            } => AgentMessage::Assistant {
                content,
                api,
                provider,
                model,
                response_id,
                usage,
                stop_reason,
                error_message,
                timestamp,
            },
            Message::ToolResult { tool_call_id, tool_name, content, is_error, timestamp } =>
                AgentMessage::ToolResult { tool_call_id, tool_name, content, is_error, timestamp },
        }
    }
}

/// The model messages of a transcript, custom messages left out.
pub fn to_llm_messages(messages: &Vec<AgentMessage>) -> (r: Vec<Message>)
    ensures
        r.deep_view() == llm_messages(messages.deep_view()),
{
    let mut r: Vec<Message> = Vec::new();
    let mut i: usize = 0;
    while i < messages.len()
        invariant
            i <= messages.len(),
            r.deep_view() == llm_messages(messages.deep_view().take(i as int)),
        decreases messages.len() - i,
    {
        assert(messages.deep_view().take(i + 1).drop_last() =~= messages.deep_view().take(
            i as int,
        ));
        let ghost before = r.deep_view();
        match messages[i].clone().into_llm_message() {
            Some(m) => {
                r.push(m);
                assert(r.deep_view() =~= before.push(m@));
            },
            None => {},
        }
        i = i + 1;
    }
    assert(messages.deep_view().take(i as int) =~= messages.deep_view());
    r
}

/// The model messages of a transcript, in order, custom messages left out.
pub open spec fn llm_messages(ms: Seq<AgentMessageView>) -> Seq<MessageView>
    decreases ms.len(),
{
    if ms.len() == 0 {
        Seq::empty()
    } else {
        llm_messages(ms.drop_last()) + match ms.last() {
            AgentMessageView::Llm(m) => seq![m],
            AgentMessageView::Custom(_) => Seq::empty(),
        }
    }
}

/// What the agent reports while it runs.
#[derive(Debug)]
pub enum AgentEvent {
    AgentStart,
    AgentEnd { messages: Vec<AgentMessage> },
    TurnStart,
    TurnEnd { message: AgentMessage, tool_results: Vec<AgentMessage> },
    MessageStart { message: AgentMessage },
    MessageUpdate { message: AgentMessage, assistant_message_event: Box<AssistantMessageEvent> },
    MessageEnd { message: AgentMessage },
    ToolExecutionStart { tool_call_id: String, tool_name: String, args: serde_json::Value },
    ToolExecutionUpdate {
        tool_call_id: String,
        tool_name: String,
        args: serde_json::Value,
        partial_result: serde_json::Value,
    },
    ToolExecutionEnd {
        tool_call_id: String,
        tool_name: String,
        result: serde_json::Value,
        is_error: bool,
    },
}

/// The value of an [`AgentEvent`].
pub enum AgentEventView {
    AgentStart,
    AgentEnd { messages: Seq<AgentMessageView> },
    TurnStart,
    TurnEnd { message: AgentMessageView, tool_results: Seq<AgentMessageView> },
    MessageStart { message: AgentMessageView },
    MessageUpdate { message: AgentMessageView, assistant_message_event: EventView },
    MessageEnd { message: AgentMessageView },
    ToolExecutionStart { tool_call_id: Seq<char>, tool_name: Seq<char>, args: serde_json::Value },
    ToolExecutionUpdate {
        tool_call_id: Seq<char>,
        tool_name: Seq<char>,
        args: serde_json::Value,
        partial_result: serde_json::Value,
    },
    ToolExecutionEnd {
        tool_call_id: Seq<char>,
        tool_name: Seq<char>,
        result: serde_json::Value,
        is_error: bool,
    },
}

impl DeepView for AgentEvent {
    type V = AgentEventView;

    open spec fn deep_view(&self) -> AgentEventView {
        match self {
            AgentEvent::AgentStart => AgentEventView::AgentStart,
            AgentEvent::AgentEnd { messages } => AgentEventView::AgentEnd {
                messages: messages.deep_view(),
            },
            AgentEvent::TurnStart => AgentEventView::TurnStart,
            AgentEvent::TurnEnd { message, tool_results } => AgentEventView::TurnEnd {
                message: message@,
                tool_results: tool_results.deep_view(),
            },
            AgentEvent::MessageStart { message } => AgentEventView::MessageStart {
                message: message@,
            },
            AgentEvent::MessageUpdate { message, assistant_message_event } =>
                AgentEventView::MessageUpdate {
                message: message@,
                assistant_message_event: assistant_message_event.deep_view(),
            },
            AgentEvent::MessageEnd { message } => AgentEventView::MessageEnd { message: message@ },
            AgentEvent::ToolExecutionStart { tool_call_id, tool_name, args } =>
                AgentEventView::ToolExecutionStart {
                tool_call_id: tool_call_id@,
                tool_name: tool_name@,
                args: *args,
            },
            AgentEvent::ToolExecutionUpdate { tool_call_id, tool_name, args, partial_result } =>
                AgentEventView::ToolExecutionUpdate {
                tool_call_id: tool_call_id@,
                tool_name: tool_name@,
                args: *args,
                partial_result: *partial_result,
            },
            AgentEvent::ToolExecutionEnd { tool_call_id, tool_name, result, is_error } =>
                AgentEventView::ToolExecutionEnd {
                tool_call_id: tool_call_id@,
                tool_name: tool_name@,
                result: *result,
                is_error: *is_error,
            },
        }
    }
}

impl View for AgentEvent {
    type V = AgentEventView;

    open spec fn view(&self) -> AgentEventView {
        self.deep_view()
    }
}

/// How deeply a model is asked to reason.
#[derive(Debug, Clone, Copy, PartialEq, Eq, Structural)]
pub enum ThinkingLevel {
    Off,
    Minimal,
    Low,
    Medium,
    High,
    Xhigh,
}

impl Default for ThinkingLevel {
    fn default() -> (l: Self)
        ensures
            l == ThinkingLevel::Off,
    {
        ThinkingLevel::Off
    }
}

/// The wire name of a thinking level.
pub open spec fn thinking_level_name(l: ThinkingLevel) -> Seq<char> {
    match l {
        ThinkingLevel::Off => "off"@,
        ThinkingLevel::Minimal => "minimal"@,
        ThinkingLevel::Low => "low"@,
        ThinkingLevel::Medium => "medium"@,
        ThinkingLevel::High => "high"@,
        ThinkingLevel::Xhigh => "xhigh"@,
    }
}

impl ThinkingLevel {
    /// The wire name of the level.
    pub fn as_str(&self) -> (s: &'static str)
        ensures
            s@ == thinking_level_name(*self),
    {
        match self {
            ThinkingLevel::Off => "off",
            ThinkingLevel::Minimal => "minimal",
            ThinkingLevel::Low => "low",
            ThinkingLevel::Medium => "medium",
            ThinkingLevel::High => "high",
            ThinkingLevel::Xhigh => "xhigh",
        }
    }
}

/// Whether the tool calls of a turn run one after another or concurrently.
#[derive(Debug, Clone, Copy, PartialEq, Eq, Structural)]
pub enum ToolExecutionMode {
    Sequential,
    Parallel,
}

impl Default for ToolExecutionMode {
    fn default() -> (m: Self)
        ensures
            m == ToolExecutionMode::Sequential,
    {
        ToolExecutionMode::Sequential
    }
}

/// What a tool answers: content for the model, details for the application,
/// and whether the agent should stop after this batch of tool calls.
#[derive(Debug)]
pub struct AgentToolResult {
    pub content: Vec<ContentBlock>,
    pub details: serde_json::Value,
    pub terminate: bool,
}

/// The value of an [`AgentToolResult`].
pub struct AgentToolResultView {
    pub content: Seq<ContentBlockView>,
    pub details: serde_json::Value,
    pub terminate: bool,
}

impl DeepView for AgentToolResult {
    type V = AgentToolResultView;

    open spec fn deep_view(&self) -> AgentToolResultView {
        AgentToolResultView {
            content: self.content.deep_view(),
            details: self.details,
            terminate: self.terminate,
        }
    }
}

impl View for AgentToolResult {
    type V = AgentToolResultView;

    open spec fn view(&self) -> AgentToolResultView {
        self.deep_view()
    }
}

impl Clone for AgentToolResult {
    fn clone(&self) -> (r: Self)
        ensures
            r@ == self@,
    {
        AgentToolResult {
            content: clone_blocks(&self.content),
            details: clone_json(&self.details),
            terminate: self.terminate,
        }
    }
}

/// What the agent knows of a tool: how it is offered to the model and how it runs.
#[derive(Debug)]
pub struct AgentToolInfo {
    pub name: String,
    pub label: String,
    pub description: String,
    pub parameters: serde_json::Value,
    pub execution_mode: ToolExecutionMode,
}

/// The transcript the agent loop works on, with its system prompt and tools.
#[derive(Debug)]
pub struct AgentContext {
    pub system_prompt: String,
    pub messages: Vec<AgentMessage>,
    pub tools: Option<Vec<AgentToolInfo>>,
}

/// What a hook before a tool call decides: whether to block it, and why.
#[derive(Debug)]
pub struct BeforeToolCallResult {
    pub block: bool,
    pub reason: Option<String>,
}

impl Default for BeforeToolCallResult {
    fn default() -> (r: Self)
        ensures
            !r.block,
            r.reason is None,
    {
        BeforeToolCallResult { block: false, reason: None }
    }
}

/// What a hook after a tool call overrides of its result.
#[derive(Debug)]
pub struct AfterToolCallResult {
    pub content: Option<Vec<ContentBlock>>,
    pub details: Option<serde_json::Value>,
    pub is_error: Option<bool>,
    pub terminate: Option<bool>,
}

impl Default for AfterToolCallResult {
    fn default() -> (r: Self)
        ensures
            r.content is None,
            r.details is None,
            r.is_error is None,
            r.terminate is None,
    {
        AfterToolCallResult { content: None, details: None, is_error: None, terminate: None }
    }
}

/// The state of an agent: its configuration, transcript and what is in flight.
#[derive(Debug)]
pub struct AgentState {
    pub system_prompt: String,
    pub model: Model,
    pub thinking_level: ThinkingLevel,
    pub tools: Vec<AgentToolInfo>,
    pub messages: Vec<AgentMessage>,
    pub is_streaming: bool,
    pub streaming_message: Option<AgentMessage>,
    pub pending_tool_calls: std::collections::HashSet<String>,
    pub error_message: Option<String>,
}

impl AgentState {
    /// The tools, as a sequence.
    pub open spec fn spec_tools(&self) -> Seq<AgentToolInfo> {
        self.tools@
    }

    /// The transcript, as a sequence of values.
    pub open spec fn spec_messages(&self) -> Seq<AgentMessageView> {
        self.messages.deep_view()
    }

    /// An idle agent for a model, with no prompt, tools or messages.
    pub fn new(model: Model) -> (s: Self)
        ensures
            s.system_prompt@ == Seq::<char>::empty(),
            s.model == model,
            s.thinking_level == ThinkingLevel::Off,
            s.spec_tools() == Seq::<AgentToolInfo>::empty(),
            s.spec_messages() == Seq::<AgentMessageView>::empty(),
            !s.is_streaming,
            s.streaming_message is None,
            s.pending_tool_calls@ == Set::<String>::empty(),
            s.error_message is None,
    {
        let s = AgentState {
            system_prompt: String::new(),
            model,
            thinking_level: ThinkingLevel::default(),
            tools: Vec::new(),
            messages: Vec::new(),
            is_streaming: false,
            streaming_message: None,
            pending_tool_calls: std::collections::HashSet::new(),
            error_message: None,
        };
        assert(s.messages.deep_view() =~= Seq::<AgentMessageView>::empty());
        s
    }

    /// The tools.
    pub fn tools(&self) -> (t: &[AgentToolInfo])
        ensures
            t@ == self.spec_tools(),
    {
        self.tools.as_slice()
    }

    /// Replaces the tools.
    pub fn set_tools(&mut self, tools: Vec<AgentToolInfo>)
        ensures
            final(self).spec_tools() == tools@,
            final(self).spec_messages() == old(self).spec_messages(),
    {
        self.tools = tools;
    }

    /// The transcript.
    pub fn messages(&self) -> (m: &[AgentMessage])
        ensures
            m@.map_values(|x: AgentMessage| x@) == self.spec_messages(),
    {
        assert(self.messages@.map_values(|x: AgentMessage| x@) =~= self.spec_messages());
        self.messages.as_slice()
    }

    /// Replaces the transcript.
    pub fn set_messages(&mut self, messages: Vec<AgentMessage>)
        ensures
            final(self).spec_messages() == messages.deep_view(),
            final(self).spec_tools() == old(self).spec_tools(),
    {
        self.messages = messages;
    }
}

/// A tool result holding one error text, no details, not stopping the agent.
pub open spec fn error_tool_result(text: Seq<char>) -> AgentToolResultView {
    AgentToolResultView {
        content: seq![ContentBlockView::Text { text, text_signature: None }],
        details: crate::json::json_null(),
        terminate: false,
    }
}

/// A tool result holding one error text.
pub fn create_error_tool_result(message: String) -> (r: AgentToolResult)
    ensures
        r@ == error_tool_result(message@),
{
    let content = vec![ContentBlock::Text { text: message, text_signature: None }];
    assert(content.deep_view() =~= seq![
        ContentBlockView::Text { text: message@, text_signature: None },
    ]);
    AgentToolResult { content, details: null_json(), terminate: false }
}

} // verus!
