//! A provider that echoes the last user message.
use vstd::prelude::*;
use vstd::string::*;

use crate::error::AIErrorView;
use crate::message::{Message, MessageView, text_of_user_content, user_content_text};
use crate::provider::generate_outcome;
use crate::providers::faux::{law_text_stream_outcome, stream_text_events, text_stream};
use crate::stream::{AssistantMessageEvent, EventView};
use crate::types::{Context, GenerateResponseView, Model, zero_usage};

verus! {

/// A provider that answers "mock response to: " followed by the last user message.
#[derive(Debug, Clone, Copy)]
pub struct MockProvider;

/// The text of the last user message, if there is one.
pub open spec fn last_user_text(ms: Seq<MessageView>) -> Option<Seq<char>>
    decreases ms.len(),
{
    if ms.len() == 0 {
        None
    } else {
        match ms.last() {
            MessageView::User { content, .. } => Some(user_content_text(content)),
            _ => last_user_text(ms.drop_last()),
        }
    }
}

/// The answer of the mock provider to a conversation.
pub open spec fn mock_response_text(ms: Seq<MessageView>) -> Seq<char> {
    "mock response to: "@ + match last_user_text(ms) {
        Some(t) => t,
        None => "empty input"@,
    }
}

/// The text of the last user message of a conversation, if there is one.
pub fn find_last_user_text(messages: &Vec<Message>) -> (r: Option<String>)
    ensures
        r.deep_view() == last_user_text(messages.deep_view()),
{
    let ghost all = messages.deep_view();
    let mut i = messages.len();
    assert(all.take(i as int) =~= all);
    while i > 0
        invariant
            all == messages.deep_view(),
            i <= messages.len(),
            last_user_text(all) == last_user_text(all.take(i as int)),
        decreases i,
    {
        assert(all.take(i as int).drop_last() =~= all.take(i - 1));
        assert(all.take(i as int).last() == messages@[i - 1].deep_view());
        match &messages[i - 1] {
            Message::User { content, .. } => {
                return Some(text_of_user_content(content));
            },
            _ => {},
        }
        i = i - 1;
    }
    None
}

/// The answer of the mock provider to a conversation.
pub fn mock_response(messages: &Vec<Message>) -> (s: String)
    ensures
        s@ == mock_response_text(messages.deep_view()),
{
    let prompt = match find_last_user_text(messages) {
        Some(t) => t,
        None => "empty input".to_owned(),
    };
    "mock response to: ".to_owned().concat(prompt.as_str())
}

/// The events the mock provider streams for a conversation with a model: its
/// answer, one character per delta.
pub open spec fn mock_stream(model_id: Seq<char>, ms: Seq<MessageView>) -> Seq<EventView> {
    text_stream("mock"@, model_id, mock_response_text(ms), 1)
}

impl MockProvider {
    /// The api slug of the provider.
    pub fn api(&self) -> (s: &'static str)
        ensures
            s@ == "mock"@,
    {
        "mock"
    }

    /// The events the provider streams for a context and a model.
    pub fn stream_events(&self, model: &Model, context: &Context) -> (r: Vec<AssistantMessageEvent>)
        ensures
            r.deep_view() == mock_stream(model.id@, context.messages.deep_view()),
    {
        let text = mock_response(&context.messages);
        stream_text_events("mock", model.id.as_str(), text.as_str(), 1)
    }
}

/// Generating with the mock provider answers "mock response to: " followed
/// by the text of the last user message ("empty input" when there is none),
/// for the requested model, with zero usage and finish reason "stop".
pub proof fn law_mock_generate_answers(model_id: Seq<char>, ms: Seq<MessageView>)
    ensures
        generate_outcome(model_id, mock_stream(model_id, ms)) == Ok::<
            GenerateResponseView,
            AIErrorView,
        >(
            GenerateResponseView {
                model: model_id,
                content: mock_response_text(ms),
                usage: Some(zero_usage()),
                finish_reason: Some("stop"@),
            },
        ),
{
    law_text_stream_outcome(model_id, "mock"@, model_id, mock_response_text(ms), 1);
}

} // verus!
