//! An in-memory provider that answers with registered messages, in order.
use vstd::prelude::*;
use vstd::string::*;
use vstd::utf8::encode_utf8;

use crate::error::AIError;
use crate::message::{
    ContentBlock, ContentBlockView, Message, MessageView, StopReason, UserContent,
    UserContentView, blocks_text, text_of_blocks, text_of_user_content, user_content_text,
};
use crate::provider::{generate_outcome, generate_step, lemma_generate_skip};
use crate::stream::{AssistantMessageEvent, EventView, stream_result, terminal_message};
use crate::error::AIErrorView;
use crate::types::{
    Cost, GenerateRequest, GenerateResponse, GenerateResponseView, Usage, zero_cost, zero_usage,
};

verus! {

/// A registered answer.
#[derive(Debug)]
pub enum FauxResponseStep {
    Static(Message),
}

impl FauxResponseStep {
    /// The registered message.
    pub open spec fn message(self) -> MessageView {
        match self {
            FauxResponseStep::Static(m) => m@,
        }
    }
}

impl DeepView for FauxResponseStep {
    type V = MessageView;

    open spec fn deep_view(&self) -> MessageView {
        self.message()
    }
}

/// Counters of a faux provider.
#[derive(Debug)]
pub struct FauxProviderState {
    pub call_count: usize,
}

/// The answers still registered with a faux provider, and its counters.
#[derive(Debug)]
pub struct FauxProvider {
    responses: Vec<FauxResponseStep>,
    state: FauxProviderState,
}

/// The characters of `text` in consecutive chunks of `size`, the last one
/// possibly shorter.
pub open spec fn chunks(text: Seq<char>, size: nat) -> Seq<Seq<char>>
    recommends
        size > 0,
    decreases text.len(),
{
    if text.len() == 0 || size == 0 {
        Seq::empty()
    } else if text.len() <= size {
        seq![text]
    } else {
        seq![text.take(size as int)] + chunks(text.skip(size as int), size)
    }
}

/// Strings concatenated in order.
pub open spec fn concat(parts: Seq<Seq<char>>) -> Seq<char>
    decreases parts.len(),
{
    if parts.len() == 0 {
        Seq::empty()
    } else {
        concat(parts.drop_last()) + parts.last()
    }
}

/// Concatenating a string before a list of strings.
pub proof fn lemma_concat_prepend(a: Seq<char>, parts: Seq<Seq<char>>)
    ensures
        concat(seq![a] + parts) == a + concat(parts),
    decreases parts.len(),
{
    if parts.len() == 0 {
        assert(seq![a] + parts =~= seq![a]);
        assert(seq![a].drop_last() =~= Seq::<Seq<char>>::empty());
        assert(concat(seq![a]) == concat(Seq::<Seq<char>>::empty()) + a);
        assert(Seq::<char>::empty() + a =~= a);
        assert(a + Seq::<char>::empty() =~= a);
    } else {
        let s = seq![a] + parts;
        lemma_concat_prepend(a, parts.drop_last());
        assert(s.drop_last() =~= seq![a] + parts.drop_last());
        assert(s.last() == parts.last());
        assert(concat(s) == concat(s.drop_last()) + s.last());
        assert(concat(parts) == concat(parts.drop_last()) + parts.last());
        assert(a + concat(parts.drop_last()) + parts.last() =~= a + (concat(parts.drop_last())
            + parts.last()));
    }
}

/// Splitting text into chunks loses and adds nothing: the chunks concatenate
/// back to the text, and each chunk holds between 1 and `size` characters.
pub proof fn law_token_deltas_rebuild_text(text: Seq<char>, size: nat)
    requires
        size > 0,
    ensures
        concat(chunks(text, size)) == text,
        forall|i: int|
            0 <= i < chunks(text, size).len() ==> 0 < #[trigger] chunks(text, size)[i].len()
                <= size,
    decreases text.len(),
{
    if text.len() == 0 {
        assert(chunks(text, size) == Seq::<Seq<char>>::empty());
        assert(concat(Seq::<Seq<char>>::empty()) == Seq::<char>::empty());
        assert(text =~= Seq::<char>::empty());
    } else if text.len() <= size {
        assert(chunks(text, size) == seq![text]);
        assert(seq![text].drop_last() =~= Seq::<Seq<char>>::empty());
        assert(concat(seq![text]) == concat(Seq::<Seq<char>>::empty()) + text);
        assert(Seq::<char>::empty() + text =~= text);
    } else {
        let rest = text.skip(size as int);
        assert(chunks(text, size) == seq![text.take(size as int)] + chunks(rest, size));
        law_token_deltas_rebuild_text(rest, size);
        lemma_concat_prepend(text.take(size as int), chunks(rest, size));
        assert(text.take(size as int) + rest =~= text);
        assert forall|i: int| 0 <= i < chunks(text, size).len() implies 0 < #[trigger] chunks(
            text,
            size,
        )[i].len() <= size by {
            if i > 0 {
                assert(chunks(text, size)[i] == chunks(rest, size)[i - 1]);
            }
        }
    }
}

/// Splits text into chunks of `token_size` characters, the last one possibly shorter.
pub fn split_into_token_deltas(text: &str, token_size: usize) -> (r: Vec<String>)
    requires
        token_size > 0,
    ensures
        r.deep_view() == chunks(text@, token_size as nat),
{
    let n = text.unicode_len();
    let mut r: Vec<String> = Vec::new();
    let mut pos: usize = 0;
    assert(text@.skip(0) =~= text@);
    while pos < n
        invariant
            n == text@.len(),
            pos <= n,
            token_size > 0,
            r.deep_view() + chunks(text@.skip(pos as int), token_size as nat) == chunks(
                text@,
                token_size as nat,
            ),
        decreases n - pos,
    {
        let end = if n - pos <= token_size {
            n
        } else {
            pos + token_size
        };
        let piece = text.substring_char(pos, end).to_owned();
        let ghost rest = text@.skip(pos as int);
        let ghost old_r = r.deep_view();
        r.push(piece);
        assert(r.deep_view() =~= old_r.push(piece@));
        if n - pos <= token_size {
            assert(piece@ =~= rest);
            assert(chunks(rest, token_size as nat) == seq![rest]);
            assert(text@.skip(end as int) =~= Seq::<char>::empty());
            assert(chunks(text@.skip(end as int), token_size as nat) =~= Seq::<Seq<char>>::empty());
            assert(r.deep_view() + chunks(text@.skip(end as int), token_size as nat) =~= old_r
                + chunks(rest, token_size as nat));
        } else {
            assert(piece@ =~= rest.take(token_size as int));
            assert(rest.skip(token_size as int) =~= text@.skip(end as int));
            assert(r.deep_view() + chunks(text@.skip(end as int), token_size as nat) =~= old_r
                + chunks(rest, token_size as nat));
        }
        pos = end;
    }
    assert(text@.skip(pos as int) =~= Seq::<char>::empty());
    assert(r.deep_view() + Seq::<Seq<char>>::empty() =~= r.deep_view());
    r
}

/// The UTF-8 byte length of text, as `str::len` reports it.
pub open spec fn byte_len(text: Seq<char>) -> int {
    (encode_utf8(text).len() as usize) as int
}

/// The token estimate of a text of `n` bytes: a quarter, rounded up.
pub open spec fn token_estimate(n: int) -> int {
    (n + 3) / 4
}

/// Estimates the tokens of a text: a quarter of its UTF-8 length, rounded up.
pub fn estimate_tokens(text: &str) -> (r: u64)
    ensures
        r as int == token_estimate(byte_len(text@)),
{
    let n = text.len();
    let q = n / 4;
    let r = if n % 4 == 0 {
        q
    } else {
        q + 1
    };
    r as u64
}

/// The text of a message as the faux provider counts it: user text, or the
/// text blocks of an assistant message; nothing for a tool result.
pub open spec fn message_text(m: MessageView) -> Seq<char> {
    match m {
        MessageView::User { content, .. } => user_content_text(content),
        MessageView::Assistant { content, .. } => blocks_text(content),
        MessageView::ToolResult { .. } => Seq::empty(),
    }
}

/// The texts of messages, concatenated in order.
pub open spec fn all_text(ms: Seq<MessageView>) -> Seq<char>
    decreases ms.len(),
{
    if ms.len() == 0 {
        Seq::empty()
    } else {
        all_text(ms.drop_last()) + message_text(ms.last())
    }
}

/// Concatenates the texts of messages, in order.
pub fn extract_all_text(messages: &Vec<Message>) -> (s: String)
    ensures
        s@ == all_text(messages.deep_view()),
{
    let mut s = String::new();
    let mut i: usize = 0;
    while i < messages.len()
        invariant
            i <= messages.len(),
            s@ == all_text(messages.deep_view().take(i as int)),
        decreases messages.len() - i,
    {
        assert(messages.deep_view().take(i + 1).drop_last() =~= messages.deep_view().take(
            i as int,
        ));
        match &messages[i] {
            Message::User { content, .. } => {
                let t = text_of_user_content(content);
                s.append(t.as_str());
            },
            Message::Assistant { content, .. } => {
                let t = text_of_blocks(content);
                s.append(t.as_str());
            },
            Message::ToolResult { .. } => {
                assert(s@ + Seq::<char>::empty() =~= s@);
            },
        }
        i = i + 1;
    }
    assert(messages.deep_view().take(i as int) =~= messages.deep_view());
    s
}

/// The text of an assistant message; requires an assistant message.
pub fn extract_assistant_text(message: &Message) -> (s: String)
    requires
        message@ is Assistant,
    ensures
        s@ == message_text(message@),
{
    match message {
        Message::Assistant { content, .. } => text_of_blocks(content),
        _ => String::new(),
    }
}

/// An assistant message of `api` for `model` with the given content.
pub open spec fn api_message(
    api: Seq<char>,
    model: Seq<char>,
    content: Seq<ContentBlockView>,
    stop_reason: StopReason,
    error_message: Option<Seq<char>>,
) -> MessageView {
    MessageView::Assistant {
        content,
        api,
        provider: api,
        model,
        response_id: None,
        usage: zero_usage(),
        stop_reason,
        error_message,
        timestamp: 0,
    }
}

/// An assistant message of `api` for `model` holding one text block.
pub open spec fn text_message(api: Seq<char>, model: Seq<char>, text: Seq<char>) -> MessageView {
    api_message(
        api,
        model,
        seq![ContentBlockView::Text { text, text_signature: None }],
        StopReason::Stop,
        None,
    )
}

/// The events in which a provider of `api` streams `text` for `model`, in
/// deltas of `token_size` characters: a start with an empty message, one text
/// delta per chunk carrying the text so far, and the finished message.
pub open spec fn text_stream(api: Seq<char>, model: Seq<char>, text: Seq<char>, token_size: nat) -> Seq<
    EventView,
> {
    let deltas = chunks(text, token_size);
    seq![EventView::Start { partial: api_message(api, model, seq![], StopReason::Stop, None) }]
        + Seq::new(
        deltas.len(),
        |i: int|
            EventView::TextDelta {
                content_index: 0,
                delta: deltas[i],
                partial: text_message(api, model, concat(deltas.take(i + 1))),
            },
    ) + seq![EventView::Done { reason: StopReason::Stop, message: text_message(api, model, text) }]
}

/// An assistant message of `api` for `model`.
pub fn make_api_message(
    api: &str,
    model: &str,
    content: Vec<ContentBlock>,
    stop_reason: StopReason,
    error_message: Option<String>,
) -> (m: Message)
    ensures
        m@ == api_message(
            api@,
            model@,
            content.deep_view(),
            stop_reason,
            error_message.deep_view(),
        ),
{
    Message::Assistant {
        content,
        api: api.to_owned(),
        provider: api.to_owned(),
        model: model.to_owned(),
        response_id: None,
        usage: Usage::default(),
        stop_reason,
        error_message,
        timestamp: 0,
    }
}

/// An assistant message of `api` for `model` holding one text block.
pub fn make_text_message(api: &str, model: &str, text: String) -> (m: Message)
    ensures
        m@ == text_message(api@, model@, text@),
{
    let content = vec![ContentBlock::Text { text, text_signature: None }];
    let m = make_api_message(api, model, content, StopReason::Stop, None);
    proof {
        assert(content.deep_view() =~= seq![
            ContentBlockView::Text { text: text@, text_signature: None },
        ]);
    }
    m
}

/// The events in which a provider of `api` streams `text` for `model`, in
/// deltas of `token_size` characters.
pub fn stream_text_events(api: &str, model: &str, text: &str, token_size: usize) -> (r: Vec<
    AssistantMessageEvent,
>)
    requires
        token_size > 0,
    ensures
        r.deep_view() == text_stream(api@, model@, text@, token_size as nat),
{
    let deltas = split_into_token_deltas(text, token_size);
    let ghost ds = chunks(text@, token_size as nat);
    let mut events: Vec<AssistantMessageEvent> = Vec::new();
    let no_blocks: Vec<ContentBlock> = Vec::new();
    assert(no_blocks.deep_view() =~= Seq::<ContentBlockView>::empty());
    let start = make_api_message(api, model, no_blocks, StopReason::Stop, None);
    events.push(AssistantMessageEvent::Start { partial: start });
    let ghost head = events.deep_view();
    assert(head =~= seq![
        EventView::Start { partial: api_message(api@, model@, seq![], StopReason::Stop, None) },
    ]);
    let mut accumulated = String::new();
    let mut i: usize = 0;
    while i < deltas.len()
        invariant
            deltas.deep_view() == ds,
            i <= deltas.len(),
            head.len() == 1,
            events.deep_view() == head + Seq::new(
                i as nat,
                |j: int|
                    EventView::TextDelta {
                        content_index: 0,
                        delta: ds[j],
                        partial: text_message(api@, model@, concat(ds.take(j + 1))),
                    },
            ),
            accumulated@ == concat(ds.take(i as int)),
        decreases deltas.len() - i,
    {
        accumulated.append(deltas[i].as_str());
        assert(deltas[i as int]@ == ds[i as int]);
        assert(ds.take(i + 1).drop_last() =~= ds.take(i as int));
        assert(ds.take(i + 1).last() == ds[i as int]);
        assert(concat(ds.take(i + 1)) == concat(ds.take(i as int)) + ds[i as int]);
        let partial = make_text_message(api, model, accumulated.clone());
        let ghost old_events = events.deep_view();
        let ev = AssistantMessageEvent::TextDelta {
            content_index: 0,
            delta: deltas[i].clone(),
            partial,
        };
        assert(ev.deep_view() == EventView::TextDelta {
            content_index: 0,
            delta: ds[i as int],
            partial: text_message(api@, model@, concat(ds.take(i + 1))),
        });
        events.push(ev);
        assert(events.deep_view() =~= old_events.push(ev.deep_view()));
        i = i + 1;
        assert(events.deep_view() =~= head + Seq::new(
            i as nat,
            |j: int|
                EventView::TextDelta {
                    content_index: 0,
                    delta: ds[j],
                    partial: text_message(api@, model@, concat(ds.take(j + 1))),
                },
        ));
    }
    let done = make_text_message(api, model, text.to_owned());
    let ghost mid = events.deep_view();
    let last = AssistantMessageEvent::Done { reason: StopReason::Stop, message: done };
    events.push(last);
    assert(events.deep_view() =~= mid.push(last.deep_view()));
    assert(events.deep_view() =~= text_stream(api@, model@, text@, token_size as nat));
    events
}

/// What the faux provider streams when no answer is registered: one error event.
pub open spec fn faux_empty_stream(model: Seq<char>) -> Seq<EventView> {
    let m = api_message(
        "faux"@,
        model,
        seq![],
        StopReason::Error,
        Some("no responses registered"@),
    );
    seq![EventView::Error { reason: StopReason::Error, error: m }]
}

/// The usage the faux provider reports for a request and an answer text.
pub open spec fn faux_usage(request_text: Seq<char>, answer_text: Seq<char>) -> Usage {
    let input = token_estimate(byte_len(request_text));
    let output = token_estimate(byte_len(answer_text));
    Usage {
        input: input as u64,
        output: output as u64,
        cache_read: 0,
        cache_write: 0,
        total_tokens: (input + output) as u64,
        cost: zero_cost(),
    }
}

impl FauxProvider {
    /// The registered answers, first to be served first.
    pub closed spec fn responses(&self) -> Seq<MessageView> {
        self.responses.deep_view()
    }

    /// How many requests the provider has served.
    pub closed spec fn calls(&self) -> nat {
        self.state.call_count as nat
    }

    /// A provider with no registered answers.
    pub fn new() -> (p: Self)
        ensures
            p.responses() == Seq::<MessageView>::empty(),
            p.calls() == 0,
    {
        let p = FauxProvider { responses: Vec::new(), state: FauxProviderState { call_count: 0 } };
        assert(p.responses.deep_view() =~= Seq::<MessageView>::empty());
        p
    }

    /// Replaces the registered answers.
    pub fn set_responses(&mut self, responses: Vec<FauxResponseStep>)
        ensures
            final(self).responses() == responses.deep_view(),
            final(self).calls() == old(self).calls(),
    {
        self.responses = responses;
    }

    /// Registers more answers after those already registered.
    pub fn append_responses(&mut self, responses: Vec<FauxResponseStep>)
        ensures
            final(self).responses() == old(self).responses() + responses.deep_view(),
            final(self).calls() == old(self).calls(),
    {
        let mut responses = responses;
        let ghost old_r = self.responses.deep_view();
        let ghost added = responses.deep_view();
        self.responses.append(&mut responses);
        assert(self.responses.deep_view() =~= old_r + added);
    }

    /// How many answers are still registered.
    pub fn get_pending_response_count(&self) -> (n: usize)
        ensures
            n == self.responses().len(),
    {
        self.responses.len()
    }

    /// Drops all registered answers.
    pub fn clear_responses(&mut self)
        ensures
            final(self).responses() == Seq::<MessageView>::empty(),
            final(self).calls() == old(self).calls(),
    {
        self.responses.clear();
        assert(self.responses.deep_view() =~= Seq::<MessageView>::empty());
    }

    /// Whether the next answer to be served is an assistant message; false
    /// when none is registered.
    pub fn next_response_is_assistant(&self) -> (b: bool)
        ensures
            b == (self.responses().len() > 0 && self.responses()[0] is Assistant),
    {
        if self.responses.len() == 0 {
            return false;
        }
        match &self.responses[0] {
            FauxResponseStep::Static(Message::Assistant { .. }) => true,
            _ => false,
        }
    }

    /// How many requests the provider has served.
    pub fn call_count(&self) -> (n: usize)
        ensures
            n == self.calls(),
    {
        self.state.call_count
    }

    /// Answers a request with the first registered answer, which must be an
    /// assistant message, and drops it from the queue.
    pub fn generate(&mut self, req: &GenerateRequest) -> (r: Result<GenerateResponse, AIError>)
        requires
            old(self).responses().len() > 0,
            old(self).responses()[0] is Assistant,
            old(self).calls() < usize::MAX,
        ensures
            final(self).responses() == old(self).responses().drop_first(),
            final(self).calls() == old(self).calls() + 1,
            r matches Ok(resp) && resp@ == (GenerateResponseView {
                model: req.model@,
                content: message_text(old(self).responses()[0]),
                usage: Some(
                    faux_usage(
                        all_text(req.messages.deep_view()),
                        message_text(old(self).responses()[0]),
                    ),
                ),
                finish_reason: Some("stop"@),
            }),
    {
        self.state.call_count = self.state.call_count + 1;
        let ghost old_r = self.responses.deep_view();
        let step = self.responses.remove(0);
        assert(self.responses.deep_view() =~= old_r.drop_first());
        let message = match step {
            FauxResponseStep::Static(m) => m,
        };
        let text = extract_assistant_text(&message);
        let request_text = extract_all_text(&req.messages);
        let input = estimate_tokens(request_text.as_str());
        let output = estimate_tokens(text.as_str());
        let usage = Usage {
            input,
            output,
            cache_read: 0,
            cache_write: 0,
            total_tokens: input + output,
            cost: Cost::default(),
        };
        Ok(
            GenerateResponse {
                model: req.model.clone(),
                content: text,
                usage: Some(usage),
                finish_reason: Some("stop".to_owned()),
            },
        )
    }

    /// The events the provider streams for a request for `model`: the first
    /// registered answer, which must be an assistant message, streamed in
    /// deltas of two characters and dropped from the queue; an error event
    /// when none is registered.
    pub fn stream_events(&mut self, model: &str) -> (r: Vec<AssistantMessageEvent>)
        requires
            old(self).responses().len() > 0 ==> old(self).responses()[0] is Assistant,
            old(self).calls() < usize::MAX,
        ensures
            final(self).calls() == old(self).calls() + 1,
            old(self).responses().len() == 0 ==> final(self).responses() == old(
                self,
            ).responses() && r.deep_view() == faux_empty_stream(model@),
            old(self).responses().len() > 0 ==> final(self).responses() == old(
                self,
            ).responses().drop_first() && r.deep_view() == text_stream(
                "faux"@,
                model@,
                message_text(old(self).responses()[0]),
                2,
            ),
    {
        proof {
            reveal_strlit("faux");
        }
        self.state.call_count = self.state.call_count + 1;
        if self.responses.len() == 0 {
            let no_blocks: Vec<ContentBlock> = Vec::new();
            assert(no_blocks.deep_view() =~= Seq::<ContentBlockView>::empty());
            let m = make_api_message(
                "faux",
                model,
                no_blocks,
                StopReason::Error,
                Some("no responses registered".to_owned()),
            );
            let mut events: Vec<AssistantMessageEvent> = Vec::new();
            events.push(AssistantMessageEvent::Error { reason: StopReason::Error, error: m });
            proof {
                assert(events.deep_view() =~= faux_empty_stream(model@));
            }
            return events;
        }
        let ghost old_r = self.responses.deep_view();
        let step = self.responses.remove(0);
        assert(self.responses.deep_view() =~= old_r.drop_first());
        let message = match step {
            FauxResponseStep::Static(m) => m,
        };
        let text = extract_assistant_text(&message);
        stream_text_events("faux", model, text.as_str(), 2)
    }
}

/// Consuming a text stream ends on its last event: `result()` gives the
/// finished message, and `generate` answers the whole streamed text for the
/// requested model, with the message's usage and finish reason "stop".
pub proof fn law_text_stream_outcome(
    model_id: Seq<char>,
    api: Seq<char>,
    model: Seq<char>,
    text: Seq<char>,
    token_size: nat,
)
    ensures
        generate_outcome(model_id, text_stream(api, model, text, token_size)) == Ok::<
            GenerateResponseView,
            AIErrorView,
        >(
            GenerateResponseView {
                model: model_id,
                content: text,
                usage: Some(zero_usage()),
                finish_reason: Some("stop"@),
            },
        ),
        stream_result(text_stream(api, model, text, token_size)) == Some(
            text_message(api, model, text),
        ),
{
    let events = text_stream(api, model, text, token_size);
    let n = chunks(text, token_size).len();
    let j = n + 1;
    assert(events.len() == j + 1);
    assert forall|i: int| 0 <= i < j implies generate_step(model_id, #[trigger] events[i]) is None
        && terminal_message(events[i]) is None by {
        if i > 0 {
            assert(events[i] is TextDelta);
        }
    }
    lemma_generate_skip(model_id, events, j as int);
    lemma_stream_result_skip(events, j as int);
    let last = events.skip(j as int);
    assert(last.len() == 1);
    assert(last[0] == events[j as int]);
    assert(last.drop_first() =~= Seq::<EventView>::empty());
    let blocks = seq![ContentBlockView::Text { text, text_signature: None }];
    assert(blocks.drop_last() =~= Seq::<ContentBlockView>::empty());
    assert(blocks_text(blocks) == blocks_text(Seq::<ContentBlockView>::empty()) + text);
    assert(Seq::<char>::empty() + text =~= text);
    reveal_strlit("stop");
}

/// Events that do not end the stream do not change what `result()` gives.
pub proof fn lemma_stream_result_skip(events: Seq<EventView>, j: int)
    requires
        0 <= j <= events.len(),
        forall|i: int| 0 <= i < j ==> terminal_message(#[trigger] events[i]) is None,
    ensures
        stream_result(events) == stream_result(events.skip(j)),
    decreases j,
{
    if j == 0 {
        assert(events.skip(0) =~= events);
    } else {
        lemma_stream_result_skip(events.drop_first(), j - 1);
        assert(events.drop_first().skip(j - 1) =~= events.skip(j));
        assert forall|i: int| 0 <= i < j - 1 implies terminal_message(
            #[trigger] events.drop_first()[i],
        ) is None by {
            assert(events.drop_first()[i] == events[i + 1]);
        }
    }
}

} // verus!
