//! One-shot generation on top of a provider's event stream.
//!
//! A provider that streams gets `generate` for free: the request becomes a
//! model, a context and stream options; the stream's events are then consumed
//! until the first `Done` (a response) or `Error` (a provider error).
use vstd::prelude::*;

use crate::error::{AIError, AIErrorView};
use crate::message::{
    Message, MessageView, StopReason, blocks_text, stop_reason_name, text_of_blocks,
};
use crate::stream::{AssistantMessageEvent, EventView};
use crate::types::{
    Context, GenerateRequest, GenerateResponse, GenerateResponseView, Model, StreamOptions,
    zero_cost,
};

verus! {

/// What `generate` answers on the `Done` message `m` of a stream of `model_id`.
pub open spec fn done_response(model_id: Seq<char>, m: MessageView) -> GenerateResponseView {
    match m {
        MessageView::Assistant { content, usage, stop_reason, .. } => GenerateResponseView {
            model: model_id,
            content: blocks_text(content),
            usage: Some(usage),
            finish_reason: Some(stop_reason_name(stop_reason)),
        },
        _ => GenerateResponseView {
            model: model_id,
            content: Seq::empty(),
            usage: None,
            finish_reason: None,
        },
    }
}

/// The provider error text of an `Error` message.
pub open spec fn error_event_text(m: MessageView) -> Seq<char> {
    match m {
        MessageView::Assistant { error_message: Some(e), .. } => e,
        _ => "unknown error"@,
    }
}

/// The answer of `generate` fixed by one event, if the event ends the stream.
pub open spec fn generate_step(model_id: Seq<char>, e: EventView) -> Option<
    Result<GenerateResponseView, AIErrorView>,
> {
    match e {
        EventView::Done { message, .. } => Some(Ok(done_response(model_id, message))),
        EventView::Error { error, .. } => Some(Err(AIErrorView::Provider(error_event_text(error)))),
        _ => None,
    }
}

/// The error of a stream that ends without `Done` or `Error`.
pub open spec fn stream_ended_error() -> AIErrorView {
    AIErrorView::Provider("stream ended without done or error"@)
}

/// The answer of `generate` on a whole stream: fixed by its first `Done` or
/// `Error` event, else the stream-ended error.
pub open spec fn generate_outcome(model_id: Seq<char>, events: Seq<EventView>) -> Result<
    GenerateResponseView,
    AIErrorView,
>
    decreases events.len(),
{
    if events.len() == 0 {
        Err(stream_ended_error())
    } else {
        match generate_step(model_id, events[0]) {
            Some(r) => r,
            None => generate_outcome(model_id, events.drop_first()),
        }
    }
}

/// The value of a `generate` answer.
pub open spec fn generate_result_view(r: Result<GenerateResponse, AIError>) -> Result<
    GenerateResponseView,
    AIErrorView,
> {
    match r {
        Ok(g) => Ok(g@),
        Err(e) => Err(e@),
    }
}

/// The model, context and stream options that `generate` streams a request with.
pub fn generate_setup(req: GenerateRequest, api: &str) -> (r: (Model, Context, StreamOptions))
    ensures
        r.0.id@ == req.model@,
        r.0.name@ == req.model@,
        r.0.api@ == api@,
        r.0.provider@ == api@,
        r.0.base_url@ == Seq::<char>::empty(),
        !r.0.reasoning,
        r.0.input.deep_view() == seq!["text"@],
        r.0.cost == zero_cost(),
        r.0.context_window == 0,
        r.0.max_tokens == 0,
        r.0.headers is None,
        r.1.system_prompt is None,
        r.1.messages == req.messages,
        r.1.tools is None,
        r.2.api_key is None,
        r.2.temperature == req.options.temperature,
        r.2.max_tokens == req.options.max_tokens,
        r.2.top_p == req.options.top_p,
        r.2.frequency_penalty == req.options.frequency_penalty,
        r.2.presence_penalty == req.options.presence_penalty,
        r.2.stop == req.options.stop,
{
    let mut model = Model::default();
    model.id = req.model.clone();
    model.name = req.model.clone();
    model.api = api.to_owned();
    model.provider = api.to_owned();
    let context = Context { system_prompt: None, messages: req.messages, tools: None };
    let options = StreamOptions {
        api_key: None,
        temperature: req.options.temperature,
        max_tokens: req.options.max_tokens,
        top_p: req.options.top_p,
        frequency_penalty: req.options.frequency_penalty,
        presence_penalty: req.options.presence_penalty,
        stop: req.options.stop,
    };
    (model, context, options)
}

/// The answer of `generate` fixed by one stream event, if it ends the stream.
pub fn generate_on_event(model_id: &str, event: &AssistantMessageEvent) -> (r: Option<
    Result<GenerateResponse, AIError>,
>)
    ensures
        match r {
            Some(x) => generate_step(model_id@, event@) == Some(generate_result_view(x)),
            None => generate_step(model_id@, event@) is None,
        },
        event@ is Done && event@->Done_message is Assistant ==> r is Some && r->0 is Ok
            && r->0->Ok_0.finish_reason is Some && r->0->Ok_0.finish_reason->0@
            == stop_reason_name(event@->Done_message->Assistant_stop_reason),
{
    match event {
        AssistantMessageEvent::Done { message, .. } => {
            let resp = match message {
                Message::Assistant { content, usage, stop_reason, .. } => GenerateResponse {
                    model: model_id.to_owned(),
                    content: text_of_blocks(content),
                    usage: Some(*usage),
                    finish_reason: Some(stop_reason.to_str().to_owned()),
                },
                _ => GenerateResponse {
                    model: model_id.to_owned(),
                    content: String::new(),
                    usage: None,
                    finish_reason: None,
                },
            };
            Some(Ok(resp))
        },
        AssistantMessageEvent::Error { error, .. } => {
            let text = match error {
                Message::Assistant { error_message: Some(e), .. } => e.clone(),
                _ => "unknown error".to_owned(),
            };
            Some(Err(AIError::Provider(text)))
        },
        _ => None,
    }
}

/// The answer of `generate` when the stream ends without `Done` or `Error`.
pub fn generate_on_stream_end() -> (e: AIError)
    ensures
        e@ == stream_ended_error(),
{
    AIError::Provider("stream ended without done or error".to_owned())
}

/// The answer of `generate` on the whole event stream of a request for `model_id`.
pub fn generate_from_events(model_id: &str, events: &Vec<AssistantMessageEvent>) -> (r: Result<
    GenerateResponse,
    AIError,
>)
    ensures
        generate_result_view(r) == generate_outcome(model_id@, events.deep_view()),
{
    let ghost all = events.deep_view();
    let mut i: usize = 0;
    assert(all.skip(0) =~= all);
    while i < events.len()
        invariant
            all == events.deep_view(),
            i <= events.len(),
            generate_outcome(model_id@, all) == generate_outcome(model_id@, all.skip(i as int)),
        decreases events.len() - i,
    {
        assert(all.skip(i as int).drop_first() =~= all.skip(i + 1));
        assert(all.skip(i as int)[0] == events@[i as int].deep_view());
        let step = generate_on_event(model_id, &events[i]);
        match step {
            Some(r) => {
                return r;
            },
            None => {},
        }
        i = i + 1;
    }
    assert(all.skip(i as int) =~= Seq::<EventView>::empty());
    Err(generate_on_stream_end())
}

/// Events that do not end the stream do not change what `generate` answers.
pub proof fn lemma_generate_skip(model_id: Seq<char>, events: Seq<EventView>, j: int)
    requires
        0 <= j <= events.len(),
        forall|i: int| 0 <= i < j ==> generate_step(model_id, #[trigger] events[i]) is None,
    ensures
        generate_outcome(model_id, events) == generate_outcome(model_id, events.skip(j)),
    decreases j,
{
    if j == 0 {
        assert(events.skip(0) =~= events);
    } else {
        lemma_generate_skip(model_id, events.drop_first(), j - 1);
        assert(events.drop_first().skip(j - 1) =~= events.skip(j));
        assert forall|i: int| 0 <= i < j - 1 implies generate_step(
            model_id,
            #[trigger] events.drop_first()[i],
        ) is None by {
            assert(events.drop_first()[i] == events[i + 1]);
        }
    }
}

/// `generate` answers a stream's `Done` with a response for the model asked,
/// the text of the message's content, and, as finish reason, the wire name of
/// the stop reason the message carries, whatever that reason is.
pub proof fn law_generate_names_the_stop_reason(
    model_id: Seq<char>,
    reason: StopReason,
    m: MessageView,
)
    requires
        m is Assistant,
    ensures
        ({
            let step = generate_step(model_id, EventView::Done { reason, message: m });
            &&& step is Some
            &&& step->0 is Ok
            &&& step->0->Ok_0.model == model_id
            &&& step->0->Ok_0.content == blocks_text(m->Assistant_content)
            &&& step->0->Ok_0.finish_reason == Some(stop_reason_name(m->Assistant_stop_reason))
        }),
{
}

} // verus!
