//! Messages exchanged with a model, and their content blocks.
use vstd::prelude::*;
use vstd::string::*;

use crate::json::clone_json;
use crate::types::Usage;

verus! {

/// One block of message content.
#[derive(Debug)]
pub enum ContentBlock {
    Text { text: String, text_signature: Option<String> },
    Thinking { thinking: String, thinking_signature: Option<String>, redacted: Option<bool> },
    Image { data: String, mime_type: String },
    ToolCall {
        id: String,
        name: String,
        arguments: serde_json::Value,
        thought_signature: Option<String>,
    },
}

/// The mathematical value of a [`ContentBlock`]: its strings as character sequences.
pub enum ContentBlockView {
    Text { text: Seq<char>, text_signature: Option<Seq<char>> },
    Thinking {
        thinking: Seq<char>,
        thinking_signature: Option<Seq<char>>,
        redacted: Option<bool>,
    },
    Image { data: Seq<char>, mime_type: Seq<char> },
    ToolCall {
        id: Seq<char>,
        name: Seq<char>,
        arguments: serde_json::Value,
        thought_signature: Option<Seq<char>>,
    },
}

impl DeepView for ContentBlock {
    type V = ContentBlockView;

    open spec fn deep_view(&self) -> ContentBlockView {
        match self {
            ContentBlock::Text { text, text_signature } => ContentBlockView::Text {
                text: text@,
                text_signature: text_signature.deep_view(),
            },
            ContentBlock::Thinking { thinking, thinking_signature, redacted } =>
                ContentBlockView::Thinking {
                thinking: thinking@,
                thinking_signature: thinking_signature.deep_view(),
                redacted: *redacted,
            },
            ContentBlock::Image { data, mime_type } => ContentBlockView::Image {
                data: data@,
                mime_type: mime_type@,
            },
            ContentBlock::ToolCall { id, name, arguments, thought_signature } =>
                ContentBlockView::ToolCall {
                id: id@,
                name: name@,
                arguments: *arguments,
                thought_signature: thought_signature.deep_view(),
            },
        }
    }
}

impl View for ContentBlock {
    type V = ContentBlockView;

    open spec fn view(&self) -> ContentBlockView {
        self.deep_view()
    }
}

/// The content of a user message: plain text or a list of blocks.
#[derive(Debug)]
pub enum UserContent {
    Plain(String),
    Blocks(Vec<ContentBlock>),
}

/// The value of a [`UserContent`].
pub enum UserContentView {
    Plain(Seq<char>),
    Blocks(Seq<ContentBlockView>),
}

impl DeepView for UserContent {
    type V = UserContentView;

    open spec fn deep_view(&self) -> UserContentView {
        match self {
            UserContent::Plain(s) => UserContentView::Plain(s@),
            UserContent::Blocks(bs) => UserContentView::Blocks(bs.deep_view()),
        }
    }
}

impl View for UserContent {
    type V = UserContentView;

    open spec fn view(&self) -> UserContentView {
        self.deep_view()
    }
}

/// Why a model stopped producing output.
#[derive(Debug, Clone, Copy, PartialEq, Eq, Structural)]
pub enum StopReason {
    Stop,
    Length,
    ToolUse,
    Error,
    Aborted,
}

/// The wire name of a stop reason.
pub open spec fn stop_reason_name(r: StopReason) -> Seq<char> {
    match r {
        StopReason::Stop => "stop"@,
        StopReason::Length => "length"@,
        StopReason::ToolUse => "toolUse"@,
        StopReason::Error => "error"@,
        StopReason::Aborted => "aborted"@,
    }
}

/// Every stop reason has a wire name of its own: "stop", "length",
/// "toolUse", "error" or "aborted", and no two stop reasons share one.
pub proof fn law_stop_reason_names(r: StopReason, q: StopReason)
    ensures
        stop_reason_name(r) == stop_reason_name(q) ==> r == q,
        (stop_reason_name(r) == "stop"@) == (r == StopReason::Stop),
        (stop_reason_name(r) == "length"@) == (r == StopReason::Length),
        (stop_reason_name(r) == "toolUse"@) == (r == StopReason::ToolUse),
        (stop_reason_name(r) == "error"@) == (r == StopReason::Error),
        (stop_reason_name(r) == "aborted"@) == (r == StopReason::Aborted),
{
    reveal_strlit("stop");
    reveal_strlit("length");
    reveal_strlit("toolUse");
    reveal_strlit("error");
    reveal_strlit("aborted");
    assert("toolUse"@[0] != "aborted"@[0]);
    assert("stop"@.len() == 4);
    assert("length"@.len() == 6);
    assert("error"@.len() == 5);
    assert("toolUse"@.len() == 7);
    assert("aborted"@.len() == 7);
}

impl StopReason {
    /// The wire name of the stop reason.
    pub fn to_str(&self) -> (s: &'static str)
        ensures
            s@ == stop_reason_name(*self),
    {
        match self {
            StopReason::Stop => "stop",
            StopReason::Length => "length",
            StopReason::ToolUse => "toolUse",
            StopReason::Error => "error",
            StopReason::Aborted => "aborted",
        }
    }
}

/// A message of a conversation.
#[derive(Debug)]
pub enum Message {
    User { content: UserContent, timestamp: u64 },
    Assistant {
        content: Vec<ContentBlock>,
        api: String,
        provider: String,
        model: String,
        response_id: Option<String>,
        usage: Usage,
        stop_reason: StopReason,
        error_message: Option<String>,
        timestamp: u64,
    },
    ToolResult {
        tool_call_id: String,
        tool_name: String,
        content: Vec<ContentBlock>,
        is_error: bool,
        timestamp: u64,
    },
}

/// The value of a [`Message`].
pub enum MessageView {
    User { content: UserContentView, timestamp: u64 },
    Assistant {
        content: Seq<ContentBlockView>,
        api: Seq<char>,
        provider: Seq<char>,
        model: Seq<char>,
        response_id: Option<Seq<char>>,
        usage: Usage,
        stop_reason: StopReason,
        error_message: Option<Seq<char>>,
        timestamp: u64,
    },
    ToolResult {
        tool_call_id: Seq<char>,
        tool_name: Seq<char>,
        content: Seq<ContentBlockView>,
        is_error: bool,
        timestamp: u64,
    },
}

impl DeepView for Message {
    type V = MessageView;

    open spec fn deep_view(&self) -> MessageView {
        match self {
            Message::User { content, timestamp } => MessageView::User {
                content: content@,
                timestamp: *timestamp,
            },
            Message::Assistant {
                content,
                api,
                provider,
                model,
                response_id,
                usage,
                stop_reason,
                error_message,
                timestamp,
            } => MessageView::Assistant {
                content: content.deep_view(),
                api: api@,
                provider: provider@,
                model: model@,
                response_id: response_id.deep_view(),
                usage: *usage,
                stop_reason: *stop_reason,
                error_message: error_message.deep_view(),
                timestamp: *timestamp,
            },
            Message::ToolResult { tool_call_id, tool_name, content, is_error, timestamp } =>
                MessageView::ToolResult {
                tool_call_id: tool_call_id@,
                tool_name: tool_name@,
                content: content.deep_view(),
                is_error: *is_error,
                timestamp: *timestamp,
            },
        }
    }
}

impl View for Message {
    type V = MessageView;

    open spec fn view(&self) -> MessageView {
        self.deep_view()
    }
}

/// The role of a conversation participant.
#[derive(Debug, Clone, Copy, PartialEq, Eq, Structural)]
pub enum Role {
    System,
    User,
    Assistant,
}

/// `std::time::SystemTime`, carried unopened.
#[verifier::external_type_specification]
#[verifier::external_body]
pub struct ExSystemTime(std::time::SystemTime);

/// `std::time::SystemTimeError`, carried unopened.
#[verifier::external_type_specification]
#[verifier::external_body]
pub struct ExSystemTimeError(std::time::SystemTimeError);

/// `std::time::SystemTime::now()`. Trusted: nothing is stated of the
/// reading, which depends on the clock.
#[verifier::external_body]
fn system_time_now() -> std::time::SystemTime {
    std::time::SystemTime::now()
}

/// `t.duration_since(std::time::UNIX_EPOCH)`: how long after the Unix epoch
/// `t` lies, or an error when it lies before. Trusted: nothing is stated of
/// the outcome.
#[verifier::external_body]
fn since_unix_epoch(t: std::time::SystemTime) -> Result<
    core::time::Duration,
    std::time::SystemTimeError,
> {
    t.duration_since(std::time::UNIX_EPOCH)
}

/// `d.as_millis()`: the whole milliseconds of a duration. Trusted: nothing is
/// stated of the count.
#[verifier::external_body]
fn whole_millis(d: core::time::Duration) -> u128 {
    d.as_millis()
}

/// A timestamp from a clock reading: the whole milliseconds since the Unix
/// epoch (`None` for a clock set before the epoch), cut to their low 64
/// bits; before the epoch it is 0.
pub fn millis_since_epoch(since: Option<u128>) -> (r: u64)
    ensures
        r == match since {
            Some(ms) => ms as u64,
            None => 0,
        },
{
    match since {
        Some(ms) => ms as u64,
        None => 0,
    }
}

/// The milliseconds since the Unix epoch, by the system clock, as
/// `millis_since_epoch` makes a timestamp of them.
pub fn now_ms() -> u64 {
    let since = match since_unix_epoch(system_time_now()) {
        Ok(d) => Some(whole_millis(d)),
        Err(_) => None,
    };
    millis_since_epoch(since)
}

/// Copies an optional string.
pub fn clone_string_opt(s: &Option<String>) -> (r: Option<String>)
    ensures
        r.deep_view() == s.deep_view(),
{
    match s {
        Some(s) => Some(s.clone()),
        None => None,
    }
}

impl Clone for ContentBlock {
    fn clone(&self) -> (r: Self)
        ensures
            r@ == self@,
    {
        match self {
            ContentBlock::Text { text, text_signature } => ContentBlock::Text {
                text: text.clone(),
                text_signature: clone_string_opt(text_signature),
            },
            ContentBlock::Thinking { thinking, thinking_signature, redacted } =>
                ContentBlock::Thinking {
                thinking: thinking.clone(),
                thinking_signature: clone_string_opt(thinking_signature),
                redacted: *redacted,
            },
            ContentBlock::Image { data, mime_type } => ContentBlock::Image {
                data: data.clone(),
                mime_type: mime_type.clone(),
            },
            ContentBlock::ToolCall { id, name, arguments, thought_signature } =>
                ContentBlock::ToolCall {
                id: id.clone(),
                name: name.clone(),
                arguments: clone_json(arguments),
                thought_signature: clone_string_opt(thought_signature),
            },
        }
    }
}

/// Copies a list of blocks.
pub fn clone_blocks(bs: &Vec<ContentBlock>) -> (r: Vec<ContentBlock>)
    ensures
        r.deep_view() == bs.deep_view(),
{
    let mut r: Vec<ContentBlock> = Vec::new();
    let mut i: usize = 0;
    while i < bs.len()
        invariant
            i <= bs.len(),
            r.deep_view() == bs.deep_view().take(i as int),
        decreases bs.len() - i,
    {
        let c = bs[i].clone();
        assert(c.deep_view() == bs@[i as int].deep_view());
        let ghost old_r = r.deep_view();
        r.push(c);
        assert(r.deep_view() =~= old_r.push(c.deep_view()));
        i = i + 1;
        assert(r.deep_view() =~= bs.deep_view().take(i as int));
    }
    assert(bs.deep_view().take(i as int) =~= bs.deep_view());
    r
}

impl Clone for UserContent {
    fn clone(&self) -> (r: Self)
        ensures
            r@ == self@,
    {
        match self {
            UserContent::Plain(s) => UserContent::Plain(s.clone()),
            UserContent::Blocks(bs) => UserContent::Blocks(clone_blocks(bs)),
        }
    }
}

impl Clone for Message {
    fn clone(&self) -> (r: Self)
        ensures
            r@ == self@,
    {
        match self {
            Message::User { content, timestamp } => Message::User {
                content: content.clone(),
                timestamp: *timestamp,
            },
            Message::Assistant {
                content,
                api,
                provider,
                model,
                response_id,
                usage,
                stop_reason,
                error_message,
                timestamp,
            } => Message::Assistant {
                content: clone_blocks(content),
                api: api.clone(),
                provider: provider.clone(),
                model: model.clone(),
                response_id: clone_string_opt(response_id),
                usage: *usage,
                stop_reason: *stop_reason,
                error_message: clone_string_opt(error_message),
                timestamp: *timestamp,
            },
            Message::ToolResult { tool_call_id, tool_name, content, is_error, timestamp } =>
                Message::ToolResult {
                tool_call_id: tool_call_id.clone(),
                tool_name: tool_name.clone(),
                content: clone_blocks(content),
                is_error: *is_error,
                timestamp: *timestamp,
            },
        }
    }
}

impl Message {
    /// A user message holding plain text, stamped with the current time.
    pub fn user(content: &str) -> (m: Message)
        ensures
            m@ matches MessageView::User { content: UserContentView::Plain(t), .. } && t
                == content@,
    {
        Message::User { content: UserContent::Plain(content.to_owned()), timestamp: now_ms() }
    }

    /// A user message holding blocks, stamped with the current time.
    pub fn user_blocks(blocks: Vec<ContentBlock>) -> (m: Message)
        ensures
            m@ matches MessageView::User { content: UserContentView::Blocks(bs), .. } && bs
                == blocks.deep_view(),
    {
        Message::User { content: UserContent::Blocks(blocks), timestamp: now_ms() }
    }

    /// A text block without signature.
    pub fn text_block(text: &str) -> (b: ContentBlock)
        ensures
            b@ == (ContentBlockView::Text { text: text@, text_signature: None }),
    {
        ContentBlock::Text { text: text.to_owned(), text_signature: None }
    }

    /// An inline image block.
    pub fn image_block(data: &str, mime_type: &str) -> (b: ContentBlock)
        ensures
            b@ == (ContentBlockView::Image { data: data@, mime_type: mime_type@ }),
    {
        ContentBlock::Image { data: data.to_owned(), mime_type: mime_type.to_owned() }
    }
}

/// The text a block contributes to the text of a message: its text if it is a
/// text block, nothing otherwise.
pub open spec fn block_text(b: ContentBlockView) -> Seq<char> {
    match b {
        ContentBlockView::Text { text, .. } => text,
        _ => Seq::empty(),
    }
}

/// The text blocks of a list, concatenated in order.
pub open spec fn blocks_text(bs: Seq<ContentBlockView>) -> Seq<char>
    decreases bs.len(),
{
    if bs.len() == 0 {
        Seq::empty()
    } else {
        blocks_text(bs.drop_last()) + block_text(bs.last())
    }
}

/// Concatenates the text blocks of a list, in order.
pub fn text_of_blocks(bs: &Vec<ContentBlock>) -> (s: String)
    ensures
        s@ == blocks_text(bs.deep_view()),
{
    let mut s = String::new();
    let mut i: usize = 0;
    while i < bs.len()
        invariant
            i <= bs.len(),
            s@ == blocks_text(bs.deep_view().take(i as int)),
        decreases bs.len() - i,
    {
        assert(bs.deep_view().take(i + 1).drop_last() =~= bs.deep_view().take(i as int));
        match &bs[i] {
            ContentBlock::Text { text, .. } => {
                s.append(text.as_str());
            },
            _ => {},
        }
        i = i + 1;
    }
    assert(bs.deep_view().take(i as int) =~= bs.deep_view());
    s
}

/// The text of user content: the plain text, or its text blocks concatenated.
pub open spec fn user_content_text(c: UserContentView) -> Seq<char> {
    match c {
        UserContentView::Plain(t) => t,
        UserContentView::Blocks(bs) => blocks_text(bs),
    }
}

/// The text of user content: the plain text, or its text blocks concatenated.
pub fn text_of_user_content(c: &UserContent) -> (s: String)
    ensures
        s@ == user_content_text(c@),
{
    match c {
        UserContent::Plain(t) => t.clone(),
        UserContent::Blocks(bs) => text_of_blocks(bs),
    }
}

} // verus!
