//! The request building and response decoding of the provider for
//! OpenAI-compatible chat completion endpoints. The HTTP exchange itself, and
//! the JSON (de)serialisation of these records, stand outside the library.
use vstd::prelude::*;
use vstd::string::*;

use crate::error::{AIError, AIErrorView};
use crate::json::{clone_json, json_value_or_null, parse_json_or_null};
use crate::message::{
    ContentBlock, ContentBlockView, Message, MessageView, StopReason, blocks_text,
    clone_string_opt, text_of_blocks, text_of_user_content, user_content_text,
};
use crate::stream::{AssistantMessageEvent, EventView};
use crate::types::{
    GenerateResponse, GenerateResponseView, StreamOptions, Tool, ToolView, Usage, zero_cost,
    zero_usage,
};

verus! {

/// Where and with which key an OpenAI-compatible endpoint is reached.
#[derive(Debug, Clone)]
pub struct OpenAICompatibleConfig {
    pub api_key: String,
    pub base_url: String,
}

/// `reqwest::Client`, the HTTP client the provider sends its requests with.
#[verifier::external_type_specification]
#[verifier::external_body]
pub struct ExHttpClient(reqwest::Client);

/// A fresh HTTP client from `reqwest::Client::new()`, which reaches `https`
/// endpoints through rustls with its ring provider and the webpki roots.
/// Trusted: nothing is stated of the client, which is only carried. With that
/// backend and the default settings, building the client meets none of the
/// failures for which `Client::new` panics.
#[verifier::external_body]
fn new_http_client() -> reqwest::Client {
    reqwest::Client::new()
}

/// A provider for an OpenAI-compatible chat completions endpoint.
#[derive(Debug)]
pub struct OpenAICompatibleProvider {
    config: OpenAICompatibleConfig,
    client: reqwest::Client,
}

impl OpenAICompatibleProvider {
    /// Where and with which key the provider reaches its endpoint.
    pub closed spec fn spec_config(&self) -> OpenAICompatibleConfig {
        self.config
    }

    /// A provider for the endpoint of `config`, with a fresh HTTP client.
    pub fn new(config: OpenAICompatibleConfig) -> (p: Self)
        ensures
            p.spec_config() == config,
    {
        OpenAICompatibleProvider { config, client: new_http_client() }
    }

    /// Where and with which key the provider reaches its endpoint.
    pub fn config(&self) -> (c: &OpenAICompatibleConfig)
        ensures
            *c == self.spec_config(),
    {
        &self.config
    }

    /// The HTTP client the provider sends its requests with.
    pub closed spec fn spec_client(&self) -> reqwest::Client {
        self.client
    }

    /// The HTTP client the provider sends its requests with.
    pub fn client(&self) -> (c: &reqwest::Client)
        ensures
            *c == self.spec_client(),
    {
        &self.client
    }

    /// The api slug of the provider.
    pub fn api(&self) -> (s: &'static str)
        ensures
            s@ == "openai-completions"@,
    {
        "openai-completions"
    }
}

/// `s` without its trailing slashes.
pub open spec fn trim_end_slashes(s: Seq<char>) -> Seq<char>
    decreases s.len(),
{
    if s.len() > 0 && s.last() == '/' {
        trim_end_slashes(s.drop_last())
    } else {
        s
    }
}

/// The chat completions endpoint under a base URL.
pub open spec fn completions_url(base_url: Seq<char>) -> Seq<char> {
    trim_end_slashes(base_url) + "/chat/completions"@
}

/// The chat completions endpoint under a base URL: the URL without trailing
/// slashes, followed by `/chat/completions`.
pub fn chat_completions_url(base_url: &str) -> (url: String)
    ensures
        url@ == completions_url(base_url@),
{
    let mut end = base_url.unicode_len();
    assert(base_url@.take(end as int) =~= base_url@);
    while end > 0 && base_url.get_char(end - 1) == '/'
        invariant
            end <= base_url@.len(),
            trim_end_slashes(base_url@) == trim_end_slashes(base_url@.take(end as int)),
        decreases end,
    {
        assert(base_url@.take(end as int).drop_last() =~= base_url@.take(end - 1));
        end = end - 1;
    }
    let trimmed = base_url.substring_char(0, end).to_owned();
    assert(trimmed@ =~= base_url@.take(end as int));
    trimmed.concat("/chat/completions")
}

/// A chat message as the endpoint takes it.
#[derive(Debug, Clone)]
pub struct OpenAIMessage {
    pub role: String,
    pub content: String,
}

/// The role and text of a message for the endpoint: user text, the text
/// blocks of an assistant message, or the text blocks of a tool result.
pub open spec fn openai_message(m: MessageView) -> (Seq<char>, Seq<char>) {
    match m {
        MessageView::User { content, .. } => ("user"@, user_content_text(content)),
        MessageView::Assistant { content, .. } => ("assistant"@, blocks_text(content)),
        MessageView::ToolResult { content, .. } => ("tool"@, blocks_text(content)),
    }
}

/// A message for the endpoint: its role and its text; non-text blocks are dropped.
pub fn message_to_openai(m: Message) -> (r: Option<OpenAIMessage>)
    ensures
        r matches Some(o) && (o.role@, o.content@) == openai_message(m@),
{
    match m {
        Message::User { content, .. } => Some(
            OpenAIMessage { role: "user".to_owned(), content: text_of_user_content(&content) },
        ),
        Message::Assistant { content, .. } => Some(
            OpenAIMessage { role: "assistant".to_owned(), content: text_of_blocks(&content) },
        ),
        Message::ToolResult { content, .. } => Some(
            OpenAIMessage { role: "tool".to_owned(), content: text_of_blocks(&content) },
        ),
    }
}

/// The messages of a conversation for the endpoint, in order.
pub fn messages_to_openai(messages: &Vec<Message>) -> (r: Vec<OpenAIMessage>)
    ensures
        r.len() == messages.len(),
        forall|i: int|
            0 <= i < r.len() ==> (#[trigger] r@[i].role@, r@[i].content@) == openai_message(
                messages@[i]@,
            ),
{
    let mut r: Vec<OpenAIMessage> = Vec::new();
    let mut i: usize = 0;
    while i < messages.len()
        invariant
            i <= messages.len(),
            r.len() == i,
            forall|j: int|
                0 <= j < i ==> (#[trigger] r@[j].role@, r@[j].content@) == openai_message(
                    messages@[j]@,
                ),
        decreases messages.len() - i,
    {
        let m = messages[i].clone();
        match message_to_openai(m) {
            Some(o) => {
                r.push(o);
            },
            None => {},
        }
        i = i + 1;
    }
    r
}

/// A function the model may call, as the endpoint takes it.
#[derive(Debug)]
pub struct OpenAIFunction {
    pub name: String,
    pub description: String,
    pub parameters: serde_json::Value,
}

/// A tool as the endpoint takes it; its type is always "function".
#[derive(Debug)]
pub struct OpenAITool {
    pub tool_type: String,
    pub function: OpenAIFunction,
}

/// The tool record for the endpoint that offers `t`.
pub open spec fn openai_tool_matches(o: OpenAITool, t: ToolView) -> bool {
    &&& o.tool_type@ == "function"@
    &&& o.function.name@ == t.name
    &&& o.function.description@ == t.description
    &&& o.function.parameters == t.parameters
}

/// The tools of a context as the endpoint takes them.
pub fn tools_to_openai(tools: &Option<Vec<Tool>>) -> (r: Option<Vec<OpenAITool>>)
    ensures
        tools is None ==> r is None,
        tools matches Some(ts) ==> r matches Some(os) && os.len() == ts.len() && forall|i: int|
            0 <= i < ts.len() ==> openai_tool_matches(#[trigger] os@[i], ts@[i]@),
{
    match tools {
        None => None,
        Some(ts) => {
            let mut os: Vec<OpenAITool> = Vec::new();
            let mut i: usize = 0;
            while i < ts.len()
                invariant
                    i <= ts.len(),
                    os.len() == i,
                    forall|j: int| 0 <= j < i ==> openai_tool_matches(#[trigger] os@[j], ts@[j]@),
                decreases ts.len() - i,
            {
                let t = &ts[i];
                os.push(
                    OpenAITool {
                        tool_type: "function".to_owned(),
                        function: OpenAIFunction {
                            name: t.name.clone(),
                            description: t.description.clone(),
                            parameters: clone_json(&t.parameters),
                        },
                    },
                );
                i = i + 1;
            }
            Some(os)
        },
    }
}

/// The body of a chat completion request; sampling parameters are `f32` bit patterns.
#[derive(Debug)]
pub struct OpenAICompletionRequest {
    pub model: String,
    pub messages: Vec<OpenAIMessage>,
    pub stream: bool,
    pub temperature: Option<u32>,
    pub max_tokens: Option<u32>,
    pub top_p: Option<u32>,
    pub frequency_penalty: Option<u32>,
    pub presence_penalty: Option<u32>,
    pub stop: Option<Vec<String>>,
    pub tools: Option<Vec<OpenAITool>>,
}

/// Copies an optional list of strings.
pub fn clone_strings_opt(v: &Option<Vec<String>>) -> (r: Option<Vec<String>>)
    ensures
        r.deep_view() == v.deep_view(),
{
    match v {
        None => None,
        Some(xs) => {
            let mut r: Vec<String> = Vec::new();
            let mut i: usize = 0;
            while i < xs.len()
                invariant
                    i <= xs.len(),
                    r.deep_view() == xs.deep_view().take(i as int),
                decreases xs.len() - i,
            {
                let ghost before = r.deep_view();
                r.push(xs[i].clone());
                assert(r.deep_view() =~= before.push(xs@[i as int]@));
                i = i + 1;
                assert(r.deep_view() =~= xs.deep_view().take(i as int));
            }
            assert(xs.deep_view().take(i as int) =~= xs.deep_view());
            Some(r)
        },
    }
}

/// The role and text of each message the endpoint is sent: the system
/// prompt first, as a system message, when there is one, then each message
/// of the conversation in order.
pub open spec fn request_messages(system_prompt: Option<Seq<char>>, ms: Seq<MessageView>) -> Seq<
    (Seq<char>, Seq<char>),
> {
    (match system_prompt {
        Some(p) => seq![("system"@, p)],
        None => Seq::empty(),
    }) + ms.map_values(|m: MessageView| openai_message(m))
}

/// The key a request is authorized with: the stream options' key when they
/// have one, else the configured key.
pub fn bearer_key(options_key: &Option<String>, config_key: &str) -> (k: String)
    ensures
        k@ == (match options_key {
            Some(x) => x@,
            None => config_key@,
        }),
{
    match options_key {
        Some(x) => x.clone(),
        None => config_key.to_owned(),
    }
}

/// The request body for a model, a system prompt, a conversation, stream
/// options and tools.
pub fn build_completion_request(
    model_id: &str,
    system_prompt: &Option<String>,
    messages: &Vec<Message>,
    options: &StreamOptions,
    stream: bool,
    tools: &Option<Vec<Tool>>,
) -> (r: OpenAICompletionRequest)
    ensures
        r.model@ == model_id@,
        r.messages.len() == request_messages(system_prompt.deep_view(), messages.deep_view()).len(),
        forall|i: int|
            0 <= i < r.messages.len() ==> (#[trigger] r.messages@[i].role@, r.messages@[i].content@)
                == request_messages(system_prompt.deep_view(), messages.deep_view())[i],
        r.stream == stream,
        r.temperature == options.temperature,
        r.max_tokens == options.max_tokens,
        r.top_p == options.top_p,
        r.frequency_penalty == options.frequency_penalty,
        r.presence_penalty == options.presence_penalty,
        r.stop.deep_view() == options.stop.deep_view(),
        tools is None ==> r.tools is None,
        tools matches Some(ts) ==> r.tools matches Some(os) && os.len() == ts.len() && forall|
            i: int,
        |
            0 <= i < ts.len() ==> openai_tool_matches(#[trigger] os@[i], ts@[i]@),
{
    let mut sent = messages_to_openai(messages);
    let ghost rest = sent@;
    match system_prompt {
        Some(p) => {
            sent.insert(0, OpenAIMessage { role: "system".to_owned(), content: p.clone() });
        },
        None => {},
    }
    proof {
        reveal_strlit("system");
        let want = request_messages(system_prompt.deep_view(), messages.deep_view());
        let off: int = if system_prompt is Some { 1 } else { 0 };
        assert forall|i: int| 0 <= i < sent.len() implies (
            #[trigger] sent@[i].role@,
            sent@[i].content@,
        ) == want[i] by {
            if i >= off {
                assert(sent@[i] == rest[i - off]);
                assert(messages.deep_view()[i - off] == messages@[i - off]@);
            }
        }
    }
    OpenAICompletionRequest {
        model: model_id.to_owned(),
        messages: sent,
        stream,
        temperature: options.temperature,
        max_tokens: options.max_tokens,
        top_p: options.top_p,
        frequency_penalty: options.frequency_penalty,
        presence_penalty: options.presence_penalty,
        stop: clone_strings_opt(&options.stop),
        tools: tools_to_openai(tools),
    }
}

/// Token counts reported by the endpoint.
#[derive(Debug, Clone, Copy)]
pub struct OpenAIUsage {
    pub prompt_tokens: u32,
    pub completion_tokens: u32,
    pub total_tokens: u32,
}

/// The assistant message of a completion choice.
#[derive(Debug)]
pub struct OpenAIAssistantMessage {
    pub content: String,
}

/// One choice of a completion.
#[derive(Debug)]
pub struct OpenAIChoice {
    pub message: OpenAIAssistantMessage,
    pub finish_reason: Option<String>,
}

/// A chat completion as the endpoint answers it.
#[derive(Debug)]
pub struct OpenAIChatCompletionResponse {
    pub model: String,
    pub choices: Vec<OpenAIChoice>,
    pub usage: Option<OpenAIUsage>,
}

/// Usage accounting of the endpoint's token counts.
pub open spec fn openai_usage(u: OpenAIUsage) -> Usage {
    Usage {
        input: u.prompt_tokens as u64,
        output: u.completion_tokens as u64,
        cache_read: 0,
        cache_write: 0,
        total_tokens: u.total_tokens as u64,
        cost: zero_cost(),
    }
}

/// What a completion answers: its first choice, or an error when it has none.
pub open spec fn completion_outcome(d: OpenAIChatCompletionResponse) -> Result<
    GenerateResponseView,
    AIErrorView,
> {
    if d.choices.len() == 0 {
        Err(AIErrorView::Provider("response choices is empty"@))
    } else {
        Ok(
            GenerateResponseView {
                model: d.model@,
                content: d.choices@[0].message.content@,
                usage: match d.usage {
                    Some(u) => Some(openai_usage(u)),
                    None => None,
                },
                finish_reason: d.choices@[0].finish_reason.deep_view(),
            },
        )
    }
}

/// The response of a one-shot completion: its first choice.
pub fn completion_response(data: OpenAIChatCompletionResponse) -> (r: Result<
    GenerateResponse,
    AIError,
>)
    ensures
        match r {
            Ok(g) => completion_outcome(data) == Ok::<GenerateResponseView, AIErrorView>(g@),
            Err(e) => completion_outcome(data) == Err::<GenerateResponseView, AIErrorView>(e@),
        },
{
    if data.choices.len() == 0 {
        return Err(AIError::Provider("response choices is empty".to_owned()));
    }
    let first = &data.choices[0];
    let usage = match data.usage {
        Some(u) => Some(
            Usage {
                input: u.prompt_tokens as u64,
                output: u.completion_tokens as u64,
                cache_read: 0,
                cache_write: 0,
                total_tokens: u.total_tokens as u64,
                cost: crate::types::Cost::default(),
            },
        ),
        None => None,
    };
    Ok(
        GenerateResponse {
            model: data.model.clone(),
            content: first.message.content.clone(),
            usage,
            finish_reason: clone_string_opt(&first.finish_reason),
        },
    )
}

/// The error of a request that could not be sent.
pub fn request_failed_error(reason: &str) -> (e: AIError)
    ensures
        e@ == AIErrorView::Provider("request failed: "@ + reason@),
{
    AIError::Provider("request failed: ".to_owned().concat(reason))
}

/// The error of a request the endpoint refused with a status.
pub fn status_error(status: &str, body: &str) -> (e: AIError)
    ensures
        e@ == AIErrorView::Provider("provider returned "@ + status@ + ": "@ + body@),
{
    AIError::Provider("provider returned ".to_owned().concat(status).concat(": ").concat(body))
}

/// The error of an answer that is not a completion.
pub fn invalid_json_error(reason: &str) -> (e: AIError)
    ensures
        e@ == AIErrorView::Provider("invalid response json: "@ + reason@),
{
    AIError::Provider("invalid response json: ".to_owned().concat(reason))
}

/// The function part of a streamed tool call delta.
#[derive(Debug)]
pub struct OpenAIFunctionDelta {
    pub name: Option<String>,
    pub arguments: Option<String>,
}

/// A streamed piece of a tool call.
#[derive(Debug)]
pub struct OpenAIToolCallDelta {
    pub index: Option<usize>,
    pub id: Option<String>,
    pub call_type: Option<String>,
    pub function: Option<OpenAIFunctionDelta>,
}

/// The new content of one streamed choice.
#[derive(Debug)]
pub struct OpenAIDelta {
    pub content: Option<String>,
    pub reasoning_content: Option<String>,
    pub tool_calls: Option<Vec<OpenAIToolCallDelta>>,
}

/// One choice of a streamed chunk.
#[derive(Debug)]
pub struct OpenAIStreamChoice {
    pub delta: OpenAIDelta,
    pub finish_reason: Option<String>,
}

/// One chunk of a streamed completion.
#[derive(Debug)]
pub struct OpenAIStreamChunk {
    pub id: String,
    pub model: String,
    pub choices: Vec<OpenAIStreamChoice>,
    pub usage: Option<OpenAIUsage>,
}

/// What a tool call delta carries: the call's position, and its id, type,
/// name and argument text where present.
pub struct ToolCallDeltaView {
    pub index: usize,
    pub id: Option<Seq<char>>,
    pub call_type: Option<Seq<char>>,
    pub name: Option<Seq<char>>,
    pub arguments: Option<Seq<char>>,
}

impl OpenAIToolCallDelta {
    /// The value of the delta; a missing index reads as 0.
    pub open spec fn spec_view(&self) -> ToolCallDeltaView {
        ToolCallDeltaView {
            index: match self.index {
                Some(i) => i,
                None => 0,
            },
            id: self.id.deep_view(),
            call_type: self.call_type.deep_view(),
            name: match self.function {
                Some(f) => f.name.deep_view(),
                None => None,
            },
            arguments: match self.function {
                Some(f) => f.arguments.deep_view(),
                None => None,
            },
        }
    }
}

/// A tool call as assembled so far from its deltas.
#[derive(Debug)]
pub struct PartialToolCall {
    pub index: usize,
    pub id: Option<String>,
    pub name: Option<String>,
    pub arguments: String,
    pub started: bool,
}

/// The value of a [`PartialToolCall`].
pub struct PartialToolCallView {
    pub index: usize,
    pub id: Option<Seq<char>>,
    pub name: Option<Seq<char>>,
    pub arguments: Seq<char>,
    pub started: bool,
}

impl DeepView for PartialToolCall {
    type V = PartialToolCallView;

    open spec fn deep_view(&self) -> PartialToolCallView {
        PartialToolCallView {
            index: self.index,
            id: self.id.deep_view(),
            name: self.name.deep_view(),
            arguments: self.arguments@,
            started: self.started,
        }
    }
}

/// What has been assembled of a streamed answer.
pub struct StreamStateView {
    pub model_id: Seq<char>,
    pub text: Seq<char>,
    pub reasoning: Seq<char>,
    pub thinking_started: bool,
    pub tool_calls: Seq<PartialToolCallView>,
    pub stop_reason: StopReason,
}

/// The api name the provider stamps on streamed messages.
pub open spec fn stream_api() -> Seq<char> {
    "openai-compatible"@
}

/// The tool call block of an assembled call; missing id or name read as empty.
pub open spec fn tool_call_block(c: PartialToolCallView) -> ContentBlockView {
    ContentBlockView::ToolCall {
        id: match c.id {
            Some(x) => x,
            None => Seq::empty(),
        },
        name: match c.name {
            Some(x) => x,
            None => Seq::empty(),
        },
        arguments: json_value_or_null(c.arguments),
        thought_signature: None,
    }
}

/// The content of an assembled answer: the reasoning, the text, then the tool
/// calls in index order; empty reasoning or text gives no block.
pub open spec fn assembled_blocks(s: StreamStateView) -> Seq<ContentBlockView> {
    (if s.reasoning.len() > 0 {
        seq![
            ContentBlockView::Thinking {
                thinking: s.reasoning,
                thinking_signature: None,
                redacted: None,
            },
        ]
    } else {
        Seq::empty()
    }) + (if s.text.len() > 0 {
        seq![ContentBlockView::Text { text: s.text, text_signature: None }]
    } else {
        Seq::empty()
    }) + s.tool_calls.map_values(|c: PartialToolCallView| tool_call_block(c))
}

/// The message of an assembled answer with a stop reason.
pub open spec fn assembled_message(s: StreamStateView, stop_reason: StopReason) -> MessageView {
    MessageView::Assistant {
        content: assembled_blocks(s),
        api: stream_api(),
        provider: stream_api(),
        model: s.model_id,
        response_id: None,
        usage: zero_usage(),
        stop_reason,
        error_message: None,
        timestamp: 0,
    }
}

/// The partial message streamed while assembling.
pub open spec fn partial_message(s: StreamStateView) -> MessageView {
    assembled_message(s, StopReason::Stop)
}

/// Applies a text delta.
pub open spec fn on_text(s: StreamStateView, t: Option<Seq<char>>) -> (StreamStateView, Seq<EventView>) {
    match t {
        Some(t) => if t.len() > 0 {
            let s2 = StreamStateView { text: s.text + t, ..s };
            (
                s2,
                seq![
                    EventView::TextDelta {
                        content_index: if s.reasoning.len() == 0 {
                            0
                        } else {
                            1
                        },
                        delta: t,
                        partial: partial_message(s2),
                    },
                ],
            )
        } else {
            (s, Seq::empty())
        },
        None => (s, Seq::empty()),
    }
}

/// Applies a reasoning delta; the first one also starts the thinking block.
pub open spec fn on_reasoning(s: StreamStateView, r: Option<Seq<char>>) -> (
    StreamStateView,
    Seq<EventView>,
) {
    match r {
        Some(r) => if r.len() > 0 {
            let s2 = StreamStateView { reasoning: s.reasoning + r, thinking_started: true, ..s };
            let p = partial_message(s2);
            (
                s2,
                (if !s.thinking_started {
                    seq![EventView::ThinkingStart { content_index: 0, partial: p }]
                } else {
                    Seq::empty()
                }) + seq![EventView::ThinkingDelta { content_index: 0, delta: r, partial: p }],
            )
        } else {
            (s, Seq::empty())
        },
        None => (s, Seq::empty()),
    }
}

/// The number of leading calls whose index is below `index`: where a call of
/// that index stands or is to be inserted.
pub open spec fn pos_of(calls: Seq<PartialToolCallView>, index: usize) -> nat
    decreases calls.len(),
{
    if calls.len() == 0 || calls[0].index >= index {
        0
    } else {
        1 + pos_of(calls.drop_first(), index)
    }
}

/// Whether a call of `index` is already assembled, at its position.
pub open spec fn has_call_at(calls: Seq<PartialToolCallView>, index: usize) -> bool {
    pos_of(calls, index) < calls.len() && calls[pos_of(calls, index) as int].index == index
}

/// The call of `index` with a delta merged in: a given id or name replaces the
/// old one, argument text is appended.
pub open spec fn merged_call(calls: Seq<PartialToolCallView>, d: ToolCallDeltaView) -> PartialToolCallView {
    let base = if has_call_at(calls, d.index) {
        calls[pos_of(calls, d.index) as int]
    } else {
        PartialToolCallView {
            index: d.index,
            id: None,
            name: None,
            arguments: Seq::empty(),
            started: false,
        }
    };
    PartialToolCallView {
        index: d.index,
        id: if d.id is Some {
            d.id
        } else {
            base.id
        },
        name: if d.name is Some {
            d.name
        } else {
            base.name
        },
        arguments: base.arguments + match d.arguments {
            Some(a) => a,
            None => Seq::empty(),
        },
        started: base.started,
    }
}

/// The calls with the merged call of a delta in place.
pub open spec fn placed_calls(calls: Seq<PartialToolCallView>, d: ToolCallDeltaView, c: PartialToolCallView) -> Seq<PartialToolCallView> {
    if has_call_at(calls, d.index) {
        calls.update(pos_of(calls, d.index) as int, c)
    } else {
        calls.insert(pos_of(calls, d.index) as int, c)
    }
}

/// Whether a delta starts its call: the call was not started and now has an id or a name.
pub open spec fn starts_call(calls: Seq<PartialToolCallView>, d: ToolCallDeltaView) -> bool {
    let c = merged_call(calls, d);
    !c.started && (c.id is Some || c.name is Some)
}

/// How many blocks come before the tool calls in an assembled message: the
/// thinking block and the text block, each when not empty.
pub open spec fn block_offset(s: StreamStateView) -> int {
    (if s.reasoning.len() == 0 {
        0int
    } else {
        1int
    }) + (if s.text.len() == 0 {
        0int
    } else {
        1int
    })
}

/// In calls sorted by strictly increasing index, the call at position `j`
/// has an index of at least `j`.
pub proof fn lemma_sorted_index_at_least_position(calls: Seq<PartialToolCallView>, j: int)
    requires
        calls_sorted(calls),
        0 <= j < calls.len(),
    ensures
        calls[j].index >= j,
    decreases j,
{
    if j > 0 {
        lemma_sorted_index_at_least_position(calls, j - 1);
    }
}

/// In sorted calls, fewer calls lie below an index than the index itself.
pub proof fn lemma_pos_of_at_most_index(calls: Seq<PartialToolCallView>, index: usize)
    requires
        calls_sorted(calls),
    ensures
        pos_of(calls, index) <= index,
{
    lemma_pos_of(calls, index);
    let p = pos_of(calls, index) as int;
    if p > 0 {
        lemma_sorted_index_at_least_position(calls, p - 1);
        assert(calls[p - 1].index < index);
    }
}

/// Applies a tool call delta. Its events name the call's block by its
/// position in the partial message: after the thinking and text blocks, at
/// the call's place among the calls sorted by index.
pub open spec fn on_tool_delta(s: StreamStateView, d: ToolCallDeltaView) -> (
    StreamStateView,
    Seq<EventView>,
) {
    let c = merged_call(s.tool_calls, d);
    let placed = placed_calls(s.tool_calls, d, c);
    let p = partial_message(StreamStateView { tool_calls: placed, ..s });
    let content_index = (block_offset(s) + pos_of(s.tool_calls, d.index)) as usize;
    let start = starts_call(s.tool_calls, d);
    let final_calls = if start {
        placed.update(
            pos_of(s.tool_calls, d.index) as int,
            PartialToolCallView { started: true, ..c },
        )
    } else {
        placed
    };
    (
        StreamStateView { tool_calls: final_calls, ..s },
        (if start {
            seq![EventView::ToolCallStart { content_index, partial: p }]
        } else {
            Seq::empty()
        }) + match d.arguments {
            Some(a) => seq![EventView::ToolCallDelta { content_index, delta: a, partial: p }],
            None => Seq::empty(),
        },
    )
}

/// Whether an event's `content_index` names `b`: the block at that position
/// of the event's partial message.
pub open spec fn names_block(e: EventView, b: ContentBlockView) -> bool {
    let (content_index, partial) = match e {
        EventView::TextDelta { content_index, partial, .. } => (content_index, partial),
        EventView::ThinkingStart { content_index, partial } => (content_index, partial),
        EventView::ThinkingDelta { content_index, partial, .. } => (content_index, partial),
        EventView::ToolCallStart { content_index, partial } => (content_index, partial),
        EventView::ToolCallDelta { content_index, partial, .. } => (content_index, partial),
        _ => (0usize, partial_message(StreamStateView {
            model_id: Seq::empty(),
            text: Seq::empty(),
            reasoning: Seq::empty(),
            thinking_started: false,
            tool_calls: Seq::empty(),
            stop_reason: StopReason::Stop,
        })),
    };
    &&& partial is Assistant
    &&& content_index < partial->Assistant_content.len()
    &&& partial->Assistant_content[content_index as int] == b
}

/// Each event a delta streams names, by its `content_index`, its own block in
/// the partial message it carries: a text delta the text block, a thinking
/// event the thinking block, a tool call event the block of its call.
pub proof fn law_events_name_their_blocks(
    s: StreamStateView,
    t: Option<Seq<char>>,
    r: Option<Seq<char>>,
    d: ToolCallDeltaView,
)
    requires
        calls_sorted(s.tool_calls),
        d.index <= usize::MAX - 2,
    ensures
        forall|i: int|
            0 <= i < on_text(s, t).1.len() ==> names_block(
                #[trigger] on_text(s, t).1[i],
                ContentBlockView::Text { text: on_text(s, t).0.text, text_signature: None },
            ),
        forall|i: int|
            0 <= i < on_reasoning(s, r).1.len() ==> names_block(
                #[trigger] on_reasoning(s, r).1[i],
                ContentBlockView::Thinking {
                    thinking: on_reasoning(s, r).0.reasoning,
                    thinking_signature: None,
                    redacted: None,
                },
            ),
        forall|i: int|
            0 <= i < on_tool_delta(s, d).1.len() ==> names_block(
                #[trigger] on_tool_delta(s, d).1[i],
                tool_call_block(merged_call(s.tool_calls, d)),
            ),
{
    let calls = s.tool_calls;
    let pos = pos_of(calls, d.index) as int;
    lemma_pos_of(calls, d.index);
    lemma_pos_of_at_most_index(calls, d.index);
    let c = merged_call(calls, d);
    let placed = placed_calls(calls, d, c);
    let ps = StreamStateView { tool_calls: placed, ..s };
    let blocks = assembled_blocks(ps);
    let tools = placed.map_values(|x: PartialToolCallView| tool_call_block(x));
    assert(pos < placed.len());
    assert(placed[pos] == c);
    assert(blocks[block_offset(s) + pos] == tools[pos]);
    let evs = on_tool_delta(s, d).1;
    assert forall|i: int| 0 <= i < evs.len() implies names_block(
        #[trigger] evs[i],
        tool_call_block(c),
    ) by {}
}

/// Applies tool call deltas in order.
pub open spec fn on_tool_deltas(s: StreamStateView, ds: Seq<ToolCallDeltaView>) -> (
    StreamStateView,
    Seq<EventView>,
)
    decreases ds.len(),
{
    if ds.len() == 0 {
        (s, Seq::empty())
    } else {
        let (s1, e1) = on_tool_deltas(s, ds.drop_last());
        let (s2, e2) = on_tool_delta(s1, ds.last());
        (s2, e1 + e2)
    }
}

/// The stop reason a finish reason names; unknown ones read as a stop.
pub open spec fn finish_stop_reason(f: Seq<char>) -> StopReason {
    if f == "length"@ {
        StopReason::Length
    } else if f == "tool_calls"@ {
        StopReason::ToolUse
    } else {
        StopReason::Stop
    }
}

/// The values of a list of deltas.
pub open spec fn tool_delta_views(ds: Seq<OpenAIToolCallDelta>) -> Seq<ToolCallDeltaView> {
    ds.map_values(|d: OpenAIToolCallDelta| d.spec_view())
}

/// Applies one streamed chunk: its first choice's text, reasoning and tool
/// call deltas, in that order, then its finish reason.
pub open spec fn on_chunk(s: StreamStateView, chunk: OpenAIStreamChunk) -> (
    StreamStateView,
    Seq<EventView>,
) {
    if chunk.choices.len() == 0 {
        (s, Seq::empty())
    } else {
        let c = chunk.choices@[0];
        let (s1, e1) = on_text(s, c.delta.content.deep_view());
        let (s2, e2) = on_reasoning(s1, c.delta.reasoning_content.deep_view());
        let (s3, e3) = match c.delta.tool_calls {
            Some(ds) => on_tool_deltas(s2, tool_delta_views(ds@)),
            None => (s2, Seq::empty()),
        };
        let s4 = match c.finish_reason {
            Some(f) => StreamStateView { stop_reason: finish_stop_reason(f@), ..s3 },
            None => s3,
        };
        (s4, e1 + e2 + e3)
    }
}

/// Every tool call position of a chunk leaves room for the content offset.
pub open spec fn chunk_indices_fit(chunk: OpenAIStreamChunk) -> bool {
    chunk.choices.len() > 0 ==> match chunk.choices@[0].delta.tool_calls {
        Some(ds) => forall|i: int|
            0 <= i < ds.len() ==> #[trigger] ds@[i].spec_view().index <= usize::MAX - 2,
        None => true,
    }
}

/// Whether every tool call position of a chunk leaves room for the content
/// offset, as `OpenAIStreamState::on_chunk` and `on_line` ask of a chunk.
pub fn tool_call_indices_fit(chunk: &OpenAIStreamChunk) -> (b: bool)
    ensures
        b == chunk_indices_fit(*chunk),
{
    if chunk.choices.len() == 0 {
        return true;
    }
    match &chunk.choices[0].delta.tool_calls {
        None => true,
        Some(ds) => {
            let mut i: usize = 0;
            while i < ds.len()
                invariant
                    i <= ds.len(),
                    chunk.choices.len() > 0,
                    chunk.choices@[0].delta.tool_calls == Some(*ds),
                    forall|k: int| 0 <= k < i ==> #[trigger] ds@[k].spec_view().index <= usize::MAX
                        - 2,
                decreases ds.len() - i,
            {
                let index = match ds[i].index {
                    Some(x) => x,
                    None => 0,
                };
                assert(ds@[i as int].spec_view().index == index);
                if index > usize::MAX - 2 {
                    assert(!(ds@[i as int].spec_view().index <= usize::MAX - 2));
                    return false;
                }
                i = i + 1;
            }
            true
        },
    }
}

/// Tool calls are kept in strictly increasing index order.
pub open spec fn calls_sorted(calls: Seq<PartialToolCallView>) -> bool {
    forall|i: int, j: int| 0 <= i < j < calls.len() ==> calls[i].index < calls[j].index
}

/// The event that ends a stream: `Done` with the assembled message and the last finish reason.
pub open spec fn done_event(s: StreamStateView) -> EventView {
    EventView::Done { reason: s.stop_reason, message: assembled_message(s, s.stop_reason) }
}

/// Copies an optional string; a missing one reads as empty.
fn string_or_empty(s: &Option<String>) -> (r: String)
    ensures
        r@ == match s.deep_view() {
            Some(x) => x,
            None => Seq::<char>::empty(),
        },
{
    match s {
        Some(x) => x.clone(),
        None => String::new(),
    }
}

/// The state of a streamed answer being assembled from its chunks.
#[derive(Debug)]
pub struct OpenAIStreamState {
    model_id: String,
    text: String,
    reasoning: String,
    thinking_started: bool,
    tool_calls: Vec<PartialToolCall>,
    stop_reason: StopReason,
}

/// Positions of calls lie below `pos_of` exactly when their index is below the given one.
pub proof fn lemma_pos_of(calls: Seq<PartialToolCallView>, index: usize)
    ensures
        pos_of(calls, index) <= calls.len(),
        forall|j: int| 0 <= j < pos_of(calls, index) ==> #[trigger] calls[j].index < index,
        pos_of(calls, index) < calls.len() ==> calls[pos_of(calls, index) as int].index >= index,
    decreases calls.len(),
{
    if calls.len() > 0 && calls[0].index < index {
        lemma_pos_of(calls.drop_first(), index);
        assert forall|j: int| 0 <= j < pos_of(calls, index) implies #[trigger] calls[j].index
            < index by {
            if j > 0 {
                assert(calls[j] == calls.drop_first()[j - 1]);
            }
        }
    }
}

impl OpenAIStreamState {
    /// What has been assembled so far.
    pub closed spec fn view(&self) -> StreamStateView {
        StreamStateView {
            model_id: self.model_id@,
            text: self.text@,
            reasoning: self.reasoning@,
            thinking_started: self.thinking_started,
            tool_calls: self.tool_calls.deep_view(),
            stop_reason: self.stop_reason,
        }
    }

    /// The assembled tool calls are sorted by strictly increasing index.
    pub closed spec fn wf(&self) -> bool {
        calls_sorted(self.view().tool_calls)
    }

    /// Nothing assembled yet for a stream of `model_id`.
    pub fn new(model_id: &str) -> (s: Self)
        ensures
            s.wf(),
            s.view() == (StreamStateView {
                model_id: model_id@,
                text: Seq::empty(),
                reasoning: Seq::empty(),
                thinking_started: false,
                tool_calls: Seq::empty(),
                stop_reason: StopReason::Stop,
            }),
    {
        let s = OpenAIStreamState {
            model_id: model_id.to_owned(),
            text: String::new(),
            reasoning: String::new(),
            thinking_started: false,
            tool_calls: Vec::new(),
            stop_reason: StopReason::Stop,
        };
        assert(s.tool_calls.deep_view() =~= Seq::<PartialToolCallView>::empty());
        s
    }

    /// The assembled message with a stop reason.
    fn assemble(&self, stop_reason: StopReason) -> (m: Message)
        ensures
            m@ == assembled_message(self.view(), stop_reason),
    {
        let mut blocks: Vec<ContentBlock> = Vec::new();
        if !self.reasoning.as_str().is_empty() {
            blocks.push(
                ContentBlock::Thinking {
                    thinking: self.reasoning.clone(),
                    thinking_signature: None,
                    redacted: None,
                },
            );
        }
        if !self.text.as_str().is_empty() {
            blocks.push(ContentBlock::Text { text: self.text.clone(), text_signature: None });
        }
        let ghost head = blocks.deep_view();
        let ghost sv = self.view();
        proof {
            assert(head =~= (if sv.reasoning.len() > 0 {
                seq![
                    ContentBlockView::Thinking {
                        thinking: sv.reasoning,
                        thinking_signature: None,
                        redacted: None,
                    },
                ]
            } else {
                Seq::empty()
            }) + (if sv.text.len() > 0 {
                seq![ContentBlockView::Text { text: sv.text, text_signature: None }]
            } else {
                Seq::empty()
            }));
        }
        let mut i: usize = 0;
        while i < self.tool_calls.len()
            invariant
                i <= self.tool_calls.len(),
                sv == self.view(),
                blocks.deep_view() == head + sv.tool_calls.take(i as int).map_values(
                    |c: PartialToolCallView| tool_call_block(c),
                ),
            decreases self.tool_calls.len() - i,
        {
            let c = &self.tool_calls[i];
            let args = if c.arguments.as_str().is_empty() {
                crate::json::null_json()
            } else {
                parse_json_or_null(c.arguments.as_str())
            };
            proof {
                if c.arguments@.len() == 0 {
                    assert(c.arguments@ =~= Seq::<char>::empty());
                }
            }
            let ghost before = blocks.deep_view();
            let b = ContentBlock::ToolCall {
                id: string_or_empty(&c.id),
                name: string_or_empty(&c.name),
                arguments: args,
                thought_signature: None,
            };
            assert(b.deep_view() == tool_call_block(sv.tool_calls[i as int]));
            blocks.push(b);
            assert(blocks.deep_view() =~= before.push(b.deep_view()));
            i = i + 1;
            assert(sv.tool_calls.take(i as int).map_values(|c: PartialToolCallView| tool_call_block(c))
                =~= sv.tool_calls.take(i - 1).map_values(|c: PartialToolCallView| tool_call_block(c)).push(
                tool_call_block(sv.tool_calls[i - 1]),
            ));
        }
        assert(sv.tool_calls.take(i as int) =~= sv.tool_calls);
        Message::Assistant {
            content: blocks,
            api: "openai-compatible".to_owned(),
            provider: "openai-compatible".to_owned(),
            model: self.model_id.clone(),
            response_id: None,
            usage: Usage::default(),
            stop_reason,
            error_message: None,
            timestamp: 0,
        }
    }

    fn apply_text(&mut self, t: &Option<String>, events: &mut Vec<AssistantMessageEvent>)
        ensures
            final(self).view() == on_text(old(self).view(), t.deep_view()).0,
            final(events).deep_view() == old(events).deep_view() + on_text(
                old(self).view(),
                t.deep_view(),
            ).1,
    {
        match t {
            Some(t) => {
                if !t.as_str().is_empty() {
                    let index: usize = if self.reasoning.as_str().is_empty() {
                        0
                    } else {
                        1
                    };
                    self.text.append(t.as_str());
                    let partial = self.assemble(StopReason::Stop);
                    let ghost before = events.deep_view();
                    let e = AssistantMessageEvent::TextDelta {
                        content_index: index,
                        delta: t.clone(),
                        partial,
                    };
                    events.push(e);
                    assert(events.deep_view() =~= before + seq![e.deep_view()]);
                } else {
                    assert(events.deep_view() =~= events.deep_view() + Seq::<EventView>::empty());
                }
            },
            None => {
                assert(events.deep_view() =~= events.deep_view() + Seq::<EventView>::empty());
            },
        }
    }

    fn apply_reasoning(&mut self, r: &Option<String>, events: &mut Vec<AssistantMessageEvent>)
        ensures
            final(self).view() == on_reasoning(old(self).view(), r.deep_view()).0,
            final(events).deep_view() == old(events).deep_view() + on_reasoning(
                old(self).view(),
                r.deep_view(),
            ).1,
    {
        match r {
            Some(r) => {
                if !r.as_str().is_empty() {
                    let is_first = !self.thinking_started;
                    self.reasoning.append(r.as_str());
                    self.thinking_started = true;
                    let partial = self.assemble(StopReason::Stop);
                    let ghost before = events.deep_view();
                    if is_first {
                        let e = AssistantMessageEvent::ThinkingStart {
                            content_index: 0,
                            partial: partial.clone(),
                        };
                        events.push(e);
                    }
                    let ghost mid = events.deep_view();
                    let e = AssistantMessageEvent::ThinkingDelta {
                        content_index: 0,
                        delta: r.clone(),
                        partial,
                    };
                    events.push(e);
                    assert(events.deep_view() =~= mid.push(e.deep_view()));
                    assert(events.deep_view() =~= before + on_reasoning(
                        old(self).view(),
                        Some(r@),
                    ).1);
                } else {
                    assert(events.deep_view() =~= events.deep_view() + Seq::<EventView>::empty());
                }
            },
            None => {
                assert(events.deep_view() =~= events.deep_view() + Seq::<EventView>::empty());
            },
        }
    }

    #[verifier::spinoff_prover]
    #[verifier::rlimit(30)]
    fn apply_tool_delta(&mut self, d: &OpenAIToolCallDelta, events: &mut Vec<AssistantMessageEvent>)
        requires
            d.spec_view().index <= usize::MAX - 2,
            calls_sorted(old(self).view().tool_calls),
        ensures
            final(self).view() == on_tool_delta(old(self).view(), d.spec_view()).0,
            final(events).deep_view() == old(events).deep_view() + on_tool_delta(
                old(self).view(),
                d.spec_view(),
            ).1,
    {
        let ghost s0 = self.view();
        let ghost dv = d.spec_view();
        let ghost calls = s0.tool_calls;
        let index: usize = match d.index {
            Some(i) => i,
            None => 0,
        };
        let mut p: usize = 0;
        assert(calls.skip(0) =~= calls);
        while p < self.tool_calls.len() && self.tool_calls[p].index < index
            invariant
                p <= self.tool_calls.len(),
                calls == self.tool_calls.deep_view(),
                pos_of(calls, index) == p + pos_of(calls.skip(p as int), index),
            decreases self.tool_calls.len() - p,
        {
            assert(calls.skip(p as int).drop_first() =~= calls.skip(p + 1));
            assert(calls.skip(p as int)[0] == calls[p as int]);
            p = p + 1;
        }
        proof {
            if p < calls.len() {
                assert(calls.skip(p as int)[0] == calls[p as int]);
            }
            assert(pos_of(calls.skip(p as int), index) == 0);
        }
        let found = p < self.tool_calls.len() && self.tool_calls[p].index == index;
        let (base_id, base_name, base_args, base_started) = if found {
            let c = &self.tool_calls[p];
            (clone_string_opt(&c.id), clone_string_opt(&c.name), c.arguments.clone(), c.started)
        } else {
            (None, None, String::new(), false)
        };
        let id = match &d.id {
            Some(x) => Some(x.clone()),
            None => base_id,
        };
        let name = match &d.function {
            Some(f) => match &f.name {
                Some(x) => Some(x.clone()),
                None => base_name,
            },
            None => base_name,
        };
        let mut arguments = base_args;
        match &d.function {
            Some(f) => match &f.arguments {
                Some(a) => {
                    arguments.append(a.as_str());
                },
                None => {
                    assert(arguments@ =~= arguments@ + Seq::<char>::empty());
                },
            },
            None => {
                assert(arguments@ =~= arguments@ + Seq::<char>::empty());
            },
        }
        let start = !base_started && (id.is_some() || name.is_some());
        let merged = PartialToolCall {
            index,
            id,
            name,
            arguments,
            started: base_started || start,
        };
        let ghost c = merged_call(calls, dv);
        assert(merged.deep_view() == (PartialToolCallView { started: c.started || start, ..c }));
        assert(start == starts_call(calls, dv));
        if found {
            self.tool_calls.set(p, merged);
        } else {
            self.tool_calls.insert(p, merged);
        }
        let ghost placed = placed_calls(calls, dv, c);
        let ghost fin = on_tool_delta(s0, dv).0.tool_calls;
        proof {
            if found {
                assert(self.tool_calls.deep_view() =~= calls.update(p as int, merged.deep_view()));
            } else {
                assert(self.tool_calls.deep_view() =~= calls.insert(p as int, merged.deep_view()));
            }
            assert(self.tool_calls.deep_view() =~= fin);
            assert(placed.map_values(|x: PartialToolCallView| tool_call_block(x)) =~= fin.map_values(
                |x: PartialToolCallView| tool_call_block(x),
            ));
        }
        let partial = self.assemble(StopReason::Stop);
        assert(partial@ == partial_message(StreamStateView { tool_calls: placed, ..s0 }));
        let thinking_blocks: usize = if self.reasoning.as_str().is_empty() {
            0
        } else {
            1
        };
        let text_blocks: usize = if self.text.as_str().is_empty() {
            0
        } else {
            1
        };
        proof {
            lemma_pos_of_at_most_index(calls, index);
        }
        let content_index = thinking_blocks + text_blocks + p;
        let ghost before = events.deep_view();
        if start {
            events.push(
                AssistantMessageEvent::ToolCallStart { content_index, partial: partial.clone() },
            );
        }
        let ghost mid = events.deep_view();
        match &d.function {
            Some(f) => match &f.arguments {
                Some(a) => {
                    let e = AssistantMessageEvent::ToolCallDelta {
                        content_index,
                        delta: a.clone(),
                        partial,
                    };
                    events.push(e);
                    assert(events.deep_view() =~= mid.push(e.deep_view()));
                },
                None => {},
            },
            None => {},
        }
        assert(events.deep_view() =~= before + on_tool_delta(s0, dv).1);
    }

    /// Applies one streamed chunk and returns the events it gives rise to.
    pub fn on_chunk(&mut self, chunk: &OpenAIStreamChunk) -> (r: Vec<AssistantMessageEvent>)
        requires
            old(self).wf(),
            chunk_indices_fit(*chunk),
        ensures
            final(self).wf(),
            (final(self).view(), r.deep_view()) == on_chunk(old(self).view(), *chunk),
    {
        let mut events: Vec<AssistantMessageEvent> = Vec::new();
        if chunk.choices.len() == 0 {
            assert(events.deep_view() =~= Seq::<EventView>::empty());
            return events;
        }
        let choice = &chunk.choices[0];
        let ghost s0 = self.view();
        self.apply_text(&choice.delta.content, &mut events);
        let ghost s1 = self.view();
        let ghost e1 = events.deep_view();
        assert(e1 =~= Seq::<EventView>::empty() + on_text(s0, choice.delta.content.deep_view()).1);
        self.apply_reasoning(&choice.delta.reasoning_content, &mut events);
        let ghost s2 = self.view();
        let ghost e2 = events.deep_view();
        match &choice.delta.tool_calls {
            Some(ds) => {
                let ghost dvs = tool_delta_views(ds@);
                let mut i: usize = 0;
                assert(dvs.take(0) =~= Seq::<ToolCallDeltaView>::empty());
                while i < ds.len()
                    invariant
                        i <= ds.len(),
                        dvs == tool_delta_views(ds@),
                        forall|k: int| 0 <= k < ds.len() ==> #[trigger] ds@[k].spec_view().index
                            <= usize::MAX - 2,
                        self.view() == on_tool_deltas(s2, dvs.take(i as int)).0,
                        events.deep_view() == e2 + on_tool_deltas(s2, dvs.take(i as int)).1,
                        calls_sorted(self.view().tool_calls),
                    decreases ds.len() - i,
                {
                    assert(dvs.take(i + 1).drop_last() =~= dvs.take(i as int));
                    assert(dvs.take(i + 1).last() == ds@[i as int].spec_view());
                    proof {
                        lemma_tool_delta_keeps_order(self.view(), ds@[i as int].spec_view());
                    }
                    self.apply_tool_delta(&ds[i], &mut events);
                    i = i + 1;
                    assert(events.deep_view() =~= e2 + on_tool_deltas(s2, dvs.take(i as int)).1);
                }
                assert(dvs.take(i as int) =~= dvs);
            },
            None => {
                assert(events.deep_view() =~= e2 + Seq::<EventView>::empty());
            },
        }
        match &choice.finish_reason {
            Some(f) => {
                proof {
                    reveal_strlit("stop");
                    reveal_strlit("length");
                    reveal_strlit("tool_calls");
                }
                let length = "length".to_owned();
                let tool_calls = "tool_calls".to_owned();
                self.stop_reason = if *f == length {
                    StopReason::Length
                } else if *f == tool_calls {
                    StopReason::ToolUse
                } else {
                    StopReason::Stop
                };
            },
            None => {},
        }
        let ghost r1 = on_text(s0, choice.delta.content.deep_view()).1;
        let ghost r2 = on_reasoning(s1, choice.delta.reasoning_content.deep_view()).1;
        let ghost r3 = match &choice.delta.tool_calls {
            Some(ds) => on_tool_deltas(s2, tool_delta_views(ds@)).1,
            None => Seq::<EventView>::empty(),
        };
        assert(e2 == e1 + r2);
        assert(events.deep_view() == e2 + r3);
        assert(events.deep_view() =~= r1 + r2 + r3);
        events
    }

    /// Takes one line of the event body, as `classify_sse_line` read it, with
    /// its payload's chunk where it is a data line whose payload parsed as
    /// one. Returns the events the line gives rise to, and whether the body is
    /// over.
    pub fn on_line(&mut self, line: &SseLine, chunk: Option<OpenAIStreamChunk>) -> (r: (
        Vec<AssistantMessageEvent>,
        bool,
    ))
        requires
            old(self).wf(),
            match chunk {
                Some(c) => chunk_indices_fit(c),
                None => true,
            },
        ensures
            final(self).wf(),
            (final(self).view(), r.0.deep_view(), r.1) == on_body_line(
                old(self).view(),
                sse_line_view(*line),
                chunk,
            ),
    {
        let none: Vec<AssistantMessageEvent> = Vec::new();
        assert(none.deep_view() =~= Seq::<EventView>::empty());
        match line {
            SseLine::Skip => (none, false),
            SseLine::Done => (none, true),
            SseLine::Data(_) => match chunk {
                None => (none, false),
                Some(c) => (self.on_chunk(&c), false),
            },
        }
    }

    /// The event that ends the stream, on `[DONE]` or at the end of the body.
    pub fn finish(&self) -> (e: AssistantMessageEvent)
        ensures
            e@ == done_event(self.view()),
            e@ is Done,
            e@->Done_reason == self.view().stop_reason,
            e@->Done_message is Assistant,
            e@->Done_message->Assistant_stop_reason == self.view().stop_reason,
            e@->Done_message->Assistant_content == assembled_blocks(self.view()),
    {
        AssistantMessageEvent::Done {
            reason: self.stop_reason,
            message: self.assemble(self.stop_reason),
        }
    }
}

/// Unicode white space, as `char::is_whitespace` decides it.
pub open spec fn is_white_space(c: char) -> bool {
    ||| ('\u{9}' <= c && c <= '\u{d}')
    ||| c == ' '
    ||| c == '\u{85}'
    ||| c == '\u{a0}'
    ||| c == '\u{1680}'
    ||| ('\u{2000}' <= c && c <= '\u{200a}')
    ||| c == '\u{2028}'
    ||| c == '\u{2029}'
    ||| c == '\u{202f}'
    ||| c == '\u{205f}'
    ||| c == '\u{3000}'
}

/// Whether a character is Unicode white space.
pub fn white_space(c: char) -> (b: bool)
    ensures
        b == is_white_space(c),
{
    ('\u{9}' <= c && c <= '\u{d}') || c == ' ' || c == '\u{85}' || c == '\u{a0}' || c
        == '\u{1680}' || ('\u{2000}' <= c && c <= '\u{200a}') || c == '\u{2028}' || c
        == '\u{2029}' || c == '\u{202f}' || c == '\u{205f}' || c == '\u{3000}'
}

/// `s` without trailing white space.
pub open spec fn trim_end_white_space(s: Seq<char>) -> Seq<char>
    decreases s.len(),
{
    if s.len() > 0 && is_white_space(s.last()) {
        trim_end_white_space(s.drop_last())
    } else {
        s
    }
}

/// A line of a server-sent event body, as the stream reads it.
#[derive(Debug)]
pub enum SseLine {
    /// A blank line, or one that carries no data.
    Skip,
    /// The `[DONE]` marker that ends the stream.
    Done,
    /// The payload of a data line.
    Data(String),
}

/// How the stream reads a line: trailing white space dropped, lines without the
/// `data: ` prefix skipped, `[DONE]` ending the stream, other payloads data.
pub open spec fn sse_line(line: Seq<char>) -> Option<Option<Seq<char>>> {
    let t = trim_end_white_space(line);
    if t.len() < 6 || t.take(6) != "data: "@ {
        None
    } else if t.skip(6) == "[DONE]"@ {
        Some(None)
    } else {
        Some(Some(t.skip(6)))
    }
}

/// The value of a classified line.
pub open spec fn sse_line_view(l: SseLine) -> Option<Option<Seq<char>>> {
    match l {
        SseLine::Skip => None,
        SseLine::Done => Some(None),
        SseLine::Data(d) => Some(Some(d@)),
    }
}

/// Reads one line of the event body.
pub fn classify_sse_line(line: &str) -> (r: SseLine)
    ensures
        sse_line_view(r) == sse_line(line@),
{
    proof {
        reveal_strlit("data: ");
        reveal_strlit("[DONE]");
    }
    let mut end = line.unicode_len();
    assert(line@.take(end as int) =~= line@);
    while end > 0 && white_space(line.get_char(end - 1))
        invariant
            end <= line@.len(),
            trim_end_white_space(line@) == trim_end_white_space(line@.take(end as int)),
        decreases end,
    {
        assert(line@.take(end as int).drop_last() =~= line@.take(end - 1));
        end = end - 1;
    }
    let ghost t = line@.take(end as int);
    assert(trim_end_white_space(t) == t);
    if end < 6 {
        return SseLine::Skip;
    }
    let prefix = line.substring_char(0, 6).to_owned();
    assert(prefix@ =~= t.take(6));
    if prefix != "data: ".to_owned() {
        return SseLine::Skip;
    }
    let data = line.substring_char(6, end).to_owned();
    assert(data@ =~= t.skip(6));
    if data == "[DONE]".to_owned() {
        SseLine::Done
    } else {
        SseLine::Data(data)
    }
}

/// What one line of the event body does to the stream: a line without data,
/// or a data line whose payload did not parse as a chunk (`chunk` is
/// `None`), does nothing; `[DONE]` ends the body; a parsed chunk is applied.
/// The flag says whether the body is over.
pub open spec fn on_body_line(
    s: StreamStateView,
    line: Option<Option<Seq<char>>>,
    chunk: Option<OpenAIStreamChunk>,
) -> (StreamStateView, Seq<EventView>, bool) {
    match line {
        None => (s, Seq::empty(), false),
        Some(None) => (s, Seq::empty(), true),
        Some(Some(_)) => match chunk {
            None => (s, Seq::empty(), false),
            Some(c) => (on_chunk(s, c).0, on_chunk(s, c).1, false),
        },
    }
}

/// What the lines of a body, each as read and with its payload's chunk, do
/// to the stream, up to the first `[DONE]`: the state after them, and their
/// events in order.
pub open spec fn on_body(
    s: StreamStateView,
    lines: Seq<(Option<Option<Seq<char>>>, Option<OpenAIStreamChunk>)>,
) -> (StreamStateView, Seq<EventView>)
    decreases lines.len(),
{
    if lines.len() == 0 {
        (s, Seq::empty())
    } else {
        let (s1, e1, stop) = on_body_line(s, lines[0].0, lines[0].1);
        if stop {
            (s1, e1)
        } else {
            let (s2, e2) = on_body(s1, lines.skip(1));
            (s2, e1 + e2)
        }
    }
}

/// The event that opens a stream: an empty partial message.
pub fn stream_start_event(model_id: &str) -> (e: AssistantMessageEvent)
    ensures
        e@ == (EventView::Start {
            partial: partial_message(
                StreamStateView {
                    model_id: model_id@,
                    text: Seq::empty(),
                    reasoning: Seq::empty(),
                    thinking_started: false,
                    tool_calls: Seq::empty(),
                    stop_reason: StopReason::Stop,
                },
            ),
        }),
{
    let state = OpenAIStreamState::new(model_id);
    let partial = state.assemble(StopReason::Stop);
    AssistantMessageEvent::Start { partial }
}

/// The error message of a failed stream.
pub open spec fn stream_error_message(model_id: Seq<char>, text: Seq<char>) -> MessageView {
    MessageView::Assistant {
        content: Seq::empty(),
        api: stream_api(),
        provider: stream_api(),
        model: model_id,
        response_id: None,
        usage: zero_usage(),
        stop_reason: StopReason::Error,
        error_message: Some(text),
        timestamp: 0,
    }
}

/// The event that ends a failed stream, with the failure's text.
pub fn stream_error_event(model_id: &str, text: String) -> (e: AssistantMessageEvent)
    ensures
        e@ == (EventView::Error {
            reason: StopReason::Error,
            error: stream_error_message(model_id@, text@),
        }),
{
    let content: Vec<ContentBlock> = Vec::new();
    assert(content.deep_view() =~= Seq::<ContentBlockView>::empty());
    AssistantMessageEvent::Error {
        reason: StopReason::Error,
        error: Message::Assistant {
            content,
            api: "openai-compatible".to_owned(),
            provider: "openai-compatible".to_owned(),
            model: model_id.to_owned(),
            response_id: None,
            usage: Usage::default(),
            stop_reason: StopReason::Error,
            error_message: Some(text),
            timestamp: 0,
        },
    }
}

/// The text of a request that could not be sent.
pub fn request_failed_text(reason: &str) -> (s: String)
    ensures
        s@ == "request failed: "@ + reason@,
{
    "request failed: ".to_owned().concat(reason)
}

/// The text of a request the endpoint refused with a status.
pub fn status_text(status: &str, body: &str) -> (s: String)
    ensures
        s@ == "provider returned "@ + status@ + ": "@ + body@,
{
    "provider returned ".to_owned().concat(status).concat(": ").concat(body)
}

/// A tool call delta keeps the assembled calls in strictly increasing index order.
pub proof fn lemma_tool_delta_keeps_order(s: StreamStateView, d: ToolCallDeltaView)
    requires
        calls_sorted(s.tool_calls),
    ensures
        calls_sorted(on_tool_delta(s, d).0.tool_calls),
{
    let calls = s.tool_calls;
    let p = pos_of(calls, d.index) as int;
    lemma_pos_of(calls, d.index);
    let c = merged_call(calls, d);
    let placed = placed_calls(calls, d, c);
    let fin = on_tool_delta(s, d).0.tool_calls;
    assert forall|i: int, j: int| 0 <= i < j < fin.len() implies fin[i].index < fin[j].index by {
        if has_call_at(calls, d.index) {
            assert(fin[i].index == calls[i].index);
            assert(fin[j].index == calls[j].index);
        } else {
            assert(placed =~= calls.insert(p, c));
            assert(fin.len() == calls.len() + 1);
            let ii = if i < p { i } else if i == p { -1 } else { i - 1 };
            let jj = if j < p { j } else if j == p { -1 } else { j - 1 };
            if i != p && j != p {
                assert(fin[i].index == calls[ii].index);
                assert(fin[j].index == calls[jj].index);
            } else if i == p {
                assert(fin[i].index == d.index);
                assert(fin[j].index == calls[j - 1].index);
                assert(calls[p].index >= d.index);
                assert(calls[p].index != d.index);
                if j - 1 > p {
                    assert(calls[p].index < calls[j - 1].index);
                }
            } else {
                assert(fin[j].index == d.index);
                assert(fin[i].index == calls[i].index);
            }
        }
    }
}

/// Applying tool call deltas keeps the assembled calls in strictly increasing index order.
pub proof fn lemma_tool_deltas_keep_order(s: StreamStateView, ds: Seq<ToolCallDeltaView>)
    requires
        calls_sorted(s.tool_calls),
    ensures
        calls_sorted(on_tool_deltas(s, ds).0.tool_calls),
    decreases ds.len(),
{
    if ds.len() > 0 {
        lemma_tool_deltas_keep_order(s, ds.drop_last());
        lemma_tool_delta_keeps_order(on_tool_deltas(s, ds.drop_last()).0, ds.last());
    }
}

/// However the chunks arrive, the assembled tool calls stay in strictly
/// increasing index order, one per index: the finished message lists them
/// sorted, as the endpoint numbered them.
pub proof fn law_chunks_keep_tool_call_order(s: StreamStateView, chunk: OpenAIStreamChunk)
    requires
        calls_sorted(s.tool_calls),
    ensures
        calls_sorted(on_chunk(s, chunk).0.tool_calls),
{
    if chunk.choices.len() > 0 {
        let c = chunk.choices@[0];
        let s1 = on_text(s, c.delta.content.deep_view()).0;
        let s2 = on_reasoning(s1, c.delta.reasoning_content.deep_view()).0;
        match c.delta.tool_calls {
            Some(ds) => lemma_tool_deltas_keep_order(s2, tool_delta_views(ds@)),
            None => {},
        }
    }
}

/// The text deltas of a sequence of events, concatenated in order.
pub open spec fn delta_text(es: Seq<EventView>) -> Seq<char>
    decreases es.len(),
{
    if es.len() == 0 {
        Seq::empty()
    } else {
        delta_text(es.drop_last()) + match es.last() {
            EventView::TextDelta { delta, .. } => delta,
            _ => Seq::empty(),
        }
    }
}

/// The text deltas of two event sequences, one after the other.
pub proof fn lemma_delta_text_concat(a: Seq<EventView>, b: Seq<EventView>)
    ensures
        delta_text(a + b) == delta_text(a) + delta_text(b),
    decreases b.len(),
{
    if b.len() == 0 {
        assert(a + b =~= a);
        assert(delta_text(a) + Seq::<char>::empty() =~= delta_text(a));
    } else {
        lemma_delta_text_concat(a, b.drop_last());
        assert((a + b).drop_last() =~= a + b.drop_last());
        assert((a + b).last() == b.last());
        let t = match b.last() {
            EventView::TextDelta { delta, .. } => delta,
            _ => Seq::<char>::empty(),
        };
        assert(delta_text(a) + delta_text(b.drop_last()) + t =~= delta_text(a) + (delta_text(
            b.drop_last(),
        ) + t));
    }
}

/// Events none of which is a text delta carry no text.
pub proof fn lemma_no_text_deltas(es: Seq<EventView>)
    requires
        forall|i: int| 0 <= i < es.len() ==> !(#[trigger] es[i] is TextDelta),
    ensures
        delta_text(es) == Seq::<char>::empty(),
    decreases es.len(),
{
    if es.len() > 0 {
        lemma_no_text_deltas(es.drop_last());
        assert(Seq::<char>::empty() + Seq::<char>::empty() =~= Seq::<char>::empty());
    }
}

/// Tool call deltas stream no text and leave the text unchanged.
pub proof fn lemma_tool_deltas_no_text(s: StreamStateView, ds: Seq<ToolCallDeltaView>)
    ensures
        delta_text(on_tool_deltas(s, ds).1) == Seq::<char>::empty(),
        on_tool_deltas(s, ds).0.text == s.text,
        on_tool_deltas(s, ds).0.reasoning == s.reasoning,
    decreases ds.len(),
{
    if ds.len() > 0 {
        let (s1, e1) = on_tool_deltas(s, ds.drop_last());
        lemma_tool_deltas_no_text(s, ds.drop_last());
        let e2 = on_tool_delta(s1, ds.last()).1;
        lemma_delta_text_concat(e1, e2);
        lemma_no_text_deltas(e2);
        assert(Seq::<char>::empty() + Seq::<char>::empty() =~= Seq::<char>::empty());
    }
}

/// The text of an answer grows by exactly the text deltas a chunk streams:
/// the finished message's text is the concatenation of every text delta.
pub proof fn law_chunk_text_is_its_deltas(s: StreamStateView, chunk: OpenAIStreamChunk)
    ensures
        on_chunk(s, chunk).0.text == s.text + delta_text(on_chunk(s, chunk).1),
{
    if chunk.choices.len() == 0 {
        assert(s.text + Seq::<char>::empty() =~= s.text);
    } else {
        let c = chunk.choices@[0];
        let (s1, r1) = on_text(s, c.delta.content.deep_view());
        let (s2, r2) = on_reasoning(s1, c.delta.reasoning_content.deep_view());
        let (s3, r3) = match c.delta.tool_calls {
            Some(ds) => on_tool_deltas(s2, tool_delta_views(ds@)),
            None => (s2, Seq::<EventView>::empty()),
        };
        match c.delta.tool_calls {
            Some(ds) => lemma_tool_deltas_no_text(s2, tool_delta_views(ds@)),
            None => {},
        }
        lemma_delta_text_concat(r1 + r2, r3);
        lemma_delta_text_concat(r1, r2);
        if r1.len() > 0 {
            assert(r1.drop_last() =~= Seq::<EventView>::empty());
            assert(delta_text(r1) == delta_text(r1.drop_last()) + match r1.last() {
                EventView::TextDelta { delta, .. } => delta,
                _ => Seq::<char>::empty(),
            });
            assert(Seq::<char>::empty() + delta_text(r1) =~= delta_text(r1));
        } else {
            assert(delta_text(r1) == Seq::<char>::empty());
            assert(s.text + Seq::<char>::empty() =~= s.text);
        }
        lemma_no_text_deltas(r2);
        assert(s1.text =~= s.text + delta_text(r1));
        assert(s.text + delta_text(r1) + Seq::<char>::empty() + Seq::<char>::empty() =~= s.text
            + delta_text(r1));
    }
}

/// The thinking deltas of a sequence of events, concatenated in order.
pub open spec fn delta_thinking(es: Seq<EventView>) -> Seq<char>
    decreases es.len(),
{
    if es.len() == 0 {
        Seq::empty()
    } else {
        delta_thinking(es.drop_last()) + match es.last() {
            EventView::ThinkingDelta { delta, .. } => delta,
            _ => Seq::empty(),
        }
    }
}

/// The thinking deltas of two event sequences, one after the other.
pub proof fn lemma_delta_thinking_concat(a: Seq<EventView>, b: Seq<EventView>)
    ensures
        delta_thinking(a + b) == delta_thinking(a) + delta_thinking(b),
    decreases b.len(),
{
    if b.len() == 0 {
        assert(a + b =~= a);
        assert(delta_thinking(a) + Seq::<char>::empty() =~= delta_thinking(a));
    } else {
        lemma_delta_thinking_concat(a, b.drop_last());
        assert((a + b).drop_last() =~= a + b.drop_last());
        assert((a + b).last() == b.last());
        let t = match b.last() {
            EventView::ThinkingDelta { delta, .. } => delta,
            _ => Seq::<char>::empty(),
        };
        assert(delta_thinking(a) + delta_thinking(b.drop_last()) + t =~= delta_thinking(a) + (
        delta_thinking(b.drop_last()) + t));
    }
}

/// Events none of which is a thinking delta carry no thinking.
pub proof fn lemma_no_thinking_deltas(es: Seq<EventView>)
    requires
        forall|i: int| 0 <= i < es.len() ==> !(#[trigger] es[i] is ThinkingDelta),
    ensures
        delta_thinking(es) == Seq::<char>::empty(),
    decreases es.len(),
{
    if es.len() > 0 {
        lemma_no_thinking_deltas(es.drop_last());
        assert(Seq::<char>::empty() + Seq::<char>::empty() =~= Seq::<char>::empty());
    }
}

/// Tool call deltas stream no thinking.
pub proof fn lemma_tool_deltas_no_thinking(s: StreamStateView, ds: Seq<ToolCallDeltaView>)
    ensures
        delta_thinking(on_tool_deltas(s, ds).1) == Seq::<char>::empty(),
    decreases ds.len(),
{
    if ds.len() > 0 {
        let (s1, e1) = on_tool_deltas(s, ds.drop_last());
        lemma_tool_deltas_no_thinking(s, ds.drop_last());
        let e2 = on_tool_delta(s1, ds.last()).1;
        lemma_delta_thinking_concat(e1, e2);
        lemma_no_thinking_deltas(e2);
        assert(Seq::<char>::empty() + Seq::<char>::empty() =~= Seq::<char>::empty());
    }
}

/// The reasoning of an answer grows by exactly the thinking deltas a chunk
/// streams: the finished message's thinking is the concatenation of every
/// thinking delta.
pub proof fn law_chunk_thinking_is_its_deltas(s: StreamStateView, chunk: OpenAIStreamChunk)
    ensures
        on_chunk(s, chunk).0.reasoning == s.reasoning + delta_thinking(on_chunk(s, chunk).1),
{
    if chunk.choices.len() == 0 {
        assert(s.reasoning + Seq::<char>::empty() =~= s.reasoning);
    } else {
        let c = chunk.choices@[0];
        let (s1, r1) = on_text(s, c.delta.content.deep_view());
        let (s2, r2) = on_reasoning(s1, c.delta.reasoning_content.deep_view());
        let (s3, r3) = match c.delta.tool_calls {
            Some(ds) => on_tool_deltas(s2, tool_delta_views(ds@)),
            None => (s2, Seq::<EventView>::empty()),
        };
        match c.delta.tool_calls {
            Some(ds) => {
                lemma_tool_deltas_no_thinking(s2, tool_delta_views(ds@));
                lemma_tool_deltas_no_text(s2, tool_delta_views(ds@));
            },
            None => {
                lemma_no_thinking_deltas(r3);
            },
        }
        lemma_delta_thinking_concat(r1 + r2, r3);
        lemma_delta_thinking_concat(r1, r2);
        lemma_no_thinking_deltas(r1);
        assert(s1.reasoning == s.reasoning);
        match c.delta.reasoning_content.deep_view() {
            Some(r) => if r.len() > 0 {
                let start = if !s1.thinking_started {
                    seq![
                        EventView::ThinkingStart {
                            content_index: 0,
                            partial: partial_message(s2),
                        },
                    ]
                } else {
                    Seq::<EventView>::empty()
                };
                let d = seq![
                    EventView::ThinkingDelta {
                        content_index: 0,
                        delta: r,
                        partial: partial_message(s2),
                    },
                ];
                assert(r2 == start + d);
                lemma_delta_thinking_concat(start, d);
                lemma_no_thinking_deltas(start);
                assert(d.drop_last() =~= Seq::<EventView>::empty());
                assert(delta_thinking(d.drop_last()) == Seq::<char>::empty());
                assert(Seq::<char>::empty() + r =~= r);
                assert(delta_thinking(d) == r);
                assert(s2.reasoning =~= s.reasoning + delta_thinking(r2));
            } else {
                assert(delta_thinking(r2) == Seq::<char>::empty());
                assert(s2.reasoning =~= s.reasoning + delta_thinking(r2));
            },
            None => {
                assert(delta_thinking(r2) == Seq::<char>::empty());
                assert(s2.reasoning =~= s.reasoning + delta_thinking(r2));
            },
        }
        assert(s.reasoning + (Seq::<char>::empty() + delta_thinking(r2)) + Seq::<char>::empty()
            =~= s.reasoning + delta_thinking(r2));
    }
}

/// Over a whole body, up to its `[DONE]`, the answer's text is what it was
/// followed by every text delta the body streamed, and its thinking likewise
/// by every thinking delta; the tool calls stay in index order. Lines without
/// data and payloads that do not parse change nothing.
pub proof fn law_body_is_its_deltas(
    s: StreamStateView,
    lines: Seq<(Option<Option<Seq<char>>>, Option<OpenAIStreamChunk>)>,
)
    requires
        calls_sorted(s.tool_calls),
    ensures
        on_body(s, lines).0.text == s.text + delta_text(on_body(s, lines).1),
        on_body(s, lines).0.reasoning == s.reasoning + delta_thinking(on_body(s, lines).1),
        calls_sorted(on_body(s, lines).0.tool_calls),
    decreases lines.len(),
{
    if lines.len() == 0 {
        assert(s.text + Seq::<char>::empty() =~= s.text);
        assert(s.reasoning + Seq::<char>::empty() =~= s.reasoning);
    } else {
        let (s1, e1, stop) = on_body_line(s, lines[0].0, lines[0].1);
        match lines[0].1 {
            Some(c) => {
                law_chunk_text_is_its_deltas(s, c);
                law_chunk_thinking_is_its_deltas(s, c);
                law_chunks_keep_tool_call_order(s, c);
            },
            None => {},
        }
        if e1.len() == 0 {
            assert(e1 =~= Seq::<EventView>::empty());
            assert(delta_text(e1) == Seq::<char>::empty());
            assert(delta_thinking(e1) == Seq::<char>::empty());
        }
        assert(s1.text == s.text + delta_text(e1)) by {
            if e1.len() == 0 {
                assert(s.text + Seq::<char>::empty() =~= s.text);
            }
        }
        assert(s1.reasoning == s.reasoning + delta_thinking(e1)) by {
            if e1.len() == 0 {
                assert(s.reasoning + Seq::<char>::empty() =~= s.reasoning);
            }
        }
        if !stop {
            let (s2, e2) = on_body(s1, lines.skip(1));
            law_body_is_its_deltas(s1, lines.skip(1));
            lemma_delta_text_concat(e1, e2);
            lemma_delta_thinking_concat(e1, e2);
            assert(s.text + delta_text(e1) + delta_text(e2) =~= s.text + (delta_text(e1)
                + delta_text(e2)));
            assert(s.reasoning + delta_thinking(e1) + delta_thinking(e2) =~= s.reasoning + (
            delta_thinking(e1) + delta_thinking(e2)));
        }
    }
}

/// Tool call deltas leave the stop reason as it is.
proof fn lemma_tool_deltas_keep_stop_reason(s: StreamStateView, ds: Seq<ToolCallDeltaView>)
    ensures
        on_tool_deltas(s, ds).0.stop_reason == s.stop_reason,
    decreases ds.len(),
{
    if ds.len() > 0 {
        lemma_tool_deltas_keep_stop_reason(s, ds.drop_last());
    }
}

/// The stop reason a stream ends with is the one named by the last finish
/// reason it saw: "length" reads as `Length`, "tool_calls" as `ToolUse`, any
/// other as `Stop`; a chunk without a finish reason keeps it. The `Done`
/// event names it both as its reason and as its message's stop reason.
pub proof fn law_stop_reason_follows_finish_reason(s: StreamStateView, chunk: OpenAIStreamChunk)
    ensures
        ({
            let s1 = on_chunk(s, chunk).0;
            if chunk.choices.len() > 0 && chunk.choices@[0].finish_reason is Some {
                let f = chunk.choices@[0].finish_reason->0@;
                &&& f == "length"@ ==> s1.stop_reason == StopReason::Length
                &&& f == "tool_calls"@ ==> s1.stop_reason == StopReason::ToolUse
                &&& f != "length"@ && f != "tool_calls"@ ==> s1.stop_reason == StopReason::Stop
            } else {
                s1.stop_reason == s.stop_reason
            }
        }),
        done_event(s) is Done,
        done_event(s)->Done_reason == s.stop_reason,
        done_event(s)->Done_message is Assistant,
        done_event(s)->Done_message->Assistant_stop_reason == s.stop_reason,
{
    if chunk.choices.len() > 0 {
        let c = chunk.choices@[0];
        let s1 = on_text(s, c.delta.content.deep_view()).0;
        let s2 = on_reasoning(s1, c.delta.reasoning_content.deep_view()).0;
        assert(s1.stop_reason == s.stop_reason);
        assert(s2.stop_reason == s.stop_reason);
        let s3 = match c.delta.tool_calls {
            Some(ds) => on_tool_deltas(s2, tool_delta_views(ds@)).0,
            None => s2,
        };
        match c.delta.tool_calls {
            Some(ds) => lemma_tool_deltas_keep_stop_reason(s2, tool_delta_views(ds@)),
            None => {},
        }
        assert(s3.stop_reason == s.stop_reason);
        reveal_strlit("length");
        reveal_strlit("tool_calls");
        assert("length"@.len() != "tool_calls"@.len());
        match c.finish_reason {
            Some(f) => {
                assert(on_chunk(s, chunk).0.stop_reason == finish_stop_reason(f@));
            },
            None => {
                assert(on_chunk(s, chunk).0.stop_reason == s3.stop_reason);
            },
        }
    }
}

} // verus!
