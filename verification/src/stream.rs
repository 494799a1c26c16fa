//! The events of an assistant message stream.
use vstd::prelude::*;

use crate::message::{Message, MessageView, StopReason};

verus! {

/// One event of the stream in which a provider delivers an assistant message.
#[derive(Debug)]
pub enum AssistantMessageEvent {
    Start { partial: Message },
    TextStart { content_index: usize, partial: Message },
    TextDelta { content_index: usize, delta: String, partial: Message },
    TextEnd { content_index: usize, content: String, partial: Message },
    ThinkingStart { content_index: usize, partial: Message },
    ThinkingDelta { content_index: usize, delta: String, partial: Message },
    ThinkingEnd { content_index: usize, content: String, partial: Message },
    ToolCallStart { content_index: usize, partial: Message },
    ToolCallDelta { content_index: usize, delta: String, partial: Message },
    ToolCallEnd { content_index: usize, partial: Message },
    Done { reason: StopReason, message: Message },
    Error { reason: StopReason, error: Message },
}

/// The value of an [`AssistantMessageEvent`].
pub enum EventView {
    Start { partial: MessageView },
    TextStart { content_index: usize, partial: MessageView },
    TextDelta { content_index: usize, delta: Seq<char>, partial: MessageView },
    TextEnd { content_index: usize, content: Seq<char>, partial: MessageView },
    ThinkingStart { content_index: usize, partial: MessageView },
    ThinkingDelta { content_index: usize, delta: Seq<char>, partial: MessageView },
    ThinkingEnd { content_index: usize, content: Seq<char>, partial: MessageView },
    ToolCallStart { content_index: usize, partial: MessageView },
    ToolCallDelta { content_index: usize, delta: Seq<char>, partial: MessageView },
    ToolCallEnd { content_index: usize, partial: MessageView },
    Done { reason: StopReason, message: MessageView },
    Error { reason: StopReason, error: MessageView },
}

impl DeepView for AssistantMessageEvent {
    type V = EventView;

    open spec fn deep_view(&self) -> EventView {
        match self {
            AssistantMessageEvent::Start { partial } => EventView::Start { partial: partial@ },
            AssistantMessageEvent::TextStart { content_index, partial } => EventView::TextStart {
                content_index: *content_index,
                partial: partial@,
            },
            AssistantMessageEvent::TextDelta { content_index, delta, partial } =>
                EventView::TextDelta {
                content_index: *content_index,
                delta: delta@,
                partial: partial@,
            },
            AssistantMessageEvent::TextEnd { content_index, content, partial } =>
                EventView::TextEnd {
                content_index: *content_index,
                content: content@,
                partial: partial@,
            },
            AssistantMessageEvent::ThinkingStart { content_index, partial } =>
                EventView::ThinkingStart { content_index: *content_index, partial: partial@ },
            AssistantMessageEvent::ThinkingDelta { content_index, delta, partial } =>
                EventView::ThinkingDelta {
                content_index: *content_index,
                delta: delta@,
                partial: partial@,
            },
            AssistantMessageEvent::ThinkingEnd { content_index, content, partial } =>
                EventView::ThinkingEnd {
                content_index: *content_index,
                content: content@,
                partial: partial@,
            },
            AssistantMessageEvent::ToolCallStart { content_index, partial } =>
                EventView::ToolCallStart { content_index: *content_index, partial: partial@ },
            AssistantMessageEvent::ToolCallDelta { content_index, delta, partial } =>
                EventView::ToolCallDelta {
                content_index: *content_index,
                delta: delta@,
                partial: partial@,
            },
            AssistantMessageEvent::ToolCallEnd { content_index, partial } =>
                EventView::ToolCallEnd { content_index: *content_index, partial: partial@ },
            AssistantMessageEvent::Done { reason, message } => EventView::Done {
                reason: *reason,
                message: message@,
            },
            AssistantMessageEvent::Error { reason, error } => EventView::Error {
                reason: *reason,
                error: error@,
            },
        }
    }
}

impl View for AssistantMessageEvent {
    type V = EventView;

    open spec fn view(&self) -> EventView {
        self.deep_view()
    }
}

impl Clone for AssistantMessageEvent {
    fn clone(&self) -> (r: Self)
        ensures
            r@ == self@,
    {
        match self {
            AssistantMessageEvent::Start { partial } => AssistantMessageEvent::Start {
                partial: partial.clone(),
            },
            AssistantMessageEvent::TextStart { content_index, partial } =>
                AssistantMessageEvent::TextStart {
                content_index: *content_index,
                partial: partial.clone(),
            },
            AssistantMessageEvent::TextDelta { content_index, delta, partial } =>
                AssistantMessageEvent::TextDelta {
                content_index: *content_index,
                delta: delta.clone(),
                partial: partial.clone(),
            },
            AssistantMessageEvent::TextEnd { content_index, content, partial } =>
                AssistantMessageEvent::TextEnd {
                content_index: *content_index,
                content: content.clone(),
                partial: partial.clone(),
            },
            AssistantMessageEvent::ThinkingStart { content_index, partial } =>
                AssistantMessageEvent::ThinkingStart {
                content_index: *content_index,
                partial: partial.clone(),
            },
            AssistantMessageEvent::ThinkingDelta { content_index, delta, partial } =>
                AssistantMessageEvent::ThinkingDelta {
                content_index: *content_index,
                delta: delta.clone(),
                partial: partial.clone(),
            },
            AssistantMessageEvent::ThinkingEnd { content_index, content, partial } =>
                AssistantMessageEvent::ThinkingEnd {
                content_index: *content_index,
                content: content.clone(),
                partial: partial.clone(),
            },
            AssistantMessageEvent::ToolCallStart { content_index, partial } =>
                AssistantMessageEvent::ToolCallStart {
                content_index: *content_index,
                partial: partial.clone(),
            },
            AssistantMessageEvent::ToolCallDelta { content_index, delta, partial } =>
                AssistantMessageEvent::ToolCallDelta {
                content_index: *content_index,
                delta: delta.clone(),
                partial: partial.clone(),
            },
            AssistantMessageEvent::ToolCallEnd { content_index, partial } =>
                AssistantMessageEvent::ToolCallEnd {
                content_index: *content_index,
                partial: partial.clone(),
            },
            AssistantMessageEvent::Done { reason, message } => AssistantMessageEvent::Done {
                reason: *reason,
                message: message.clone(),
            },
            AssistantMessageEvent::Error { reason, error } => AssistantMessageEvent::Error {
                reason: *reason,
                error: error.clone(),
            },
        }
    }
}

/// The message that ends a stream at this event: the message of `Done`, the
/// error of `Error`; none for the other events.
pub open spec fn terminal_message(e: EventView) -> Option<MessageView> {
    match e {
        EventView::Done { message, .. } => Some(message),
        EventView::Error { error, .. } => Some(error),
        _ => None,
    }
}

/// What consuming a whole stream with `result()` yields: the message of its
/// first `Done` or `Error` event, or none when there is no such event.
pub open spec fn stream_result(events: Seq<EventView>) -> Option<MessageView>
    decreases events.len(),
{
    if events.len() == 0 {
        None
    } else {
        match terminal_message(events[0]) {
            Some(m) => Some(m),
            None => stream_result(events.drop_first()),
        }
    }
}

impl AssistantMessageEvent {
    /// The message that ends the stream at this event, if it is `Done` or `Error`.
    /// Consuming a stream calls this on each event until it returns a message.
    pub fn into_terminal_message(self) -> (r: Option<Message>)
        ensures
            r.deep_view() == terminal_message(self@),
    {
        match self {
            AssistantMessageEvent::Done { message, .. } => Some(message),
            AssistantMessageEvent::Error { error, .. } => Some(error),
            _ => None,
        }
    }
}

/// The final message of a sequence of stream events.
pub fn result_of_events(events: &Vec<AssistantMessageEvent>) -> (r: Option<Message>)
    ensures
        r.deep_view() == stream_result(events.deep_view()),
{
    let ghost all = events.deep_view();
    let mut i: usize = 0;
    assert(all.skip(0) =~= all);
    while i < events.len()
        invariant
            all == events.deep_view(),
            i <= events.len(),
            stream_result(all) == stream_result(all.skip(i as int)),
        decreases events.len() - i,
    {
        assert(all.skip(i as int).drop_first() =~= all.skip(i + 1));
        assert(all.skip(i as int)[0] == events@[i as int].deep_view());
        let t = events[i].clone().into_terminal_message();
        if t.is_some() {
            return t;
        }
        i = i + 1;
    }
    assert(all.skip(i as int) =~= Seq::<EventView>::empty());
    None
}

} // verus!
