use pi_agent::error::AIError;
use pi_agent::message::{ContentBlock, Message, StopReason, UserContent};
use pi_agent::providers::openai_compatible::{
    bearer_key, build_completion_request, chat_completions_url, classify_sse_line, completion_response,
    invalid_json_error, message_to_openai, messages_to_openai, request_failed_error,
    status_error, stream_error_event, stream_start_event, tools_to_openai, white_space,
    OpenAIAssistantMessage, OpenAIChatCompletionResponse, OpenAIChoice, OpenAICompatibleConfig,
    OpenAICompatibleProvider, OpenAIDelta, OpenAIFunctionDelta, OpenAIStreamChoice,
    OpenAIStreamChunk, OpenAIStreamState, OpenAIToolCallDelta, OpenAIUsage, SseLine, tool_call_indices_fit,
};
use pi_agent::stream::AssistantMessageEvent;
use pi_agent::types::{StreamOptions, Tool, Usage};
use serde_json::Value;

fn chunk(delta: OpenAIDelta, finish_reason: Option<&str>) -> OpenAIStreamChunk {
    OpenAIStreamChunk {
        id: "id".into(),
        model: "m".into(),
        choices: vec![OpenAIStreamChoice { delta, finish_reason: finish_reason.map(|s| s.into()) }],
        usage: None,
    }
}

fn text_delta(t: &str) -> OpenAIDelta {
    OpenAIDelta { content: Some(t.into()), reasoning_content: None, tool_calls: None }
}

fn call_delta(index: usize, id: Option<&str>, name: Option<&str>, args: Option<&str>) -> OpenAIToolCallDelta {
    OpenAIToolCallDelta {
        index: Some(index),
        id: id.map(|s| s.into()),
        call_type: Some("function".into()),
        function: Some(OpenAIFunctionDelta {
            name: name.map(|s| s.into()),
            arguments: args.map(|s| s.into()),
        }),
    }
}

fn content_of(e: &AssistantMessageEvent) -> Vec<ContentBlock> {
    match e {
        AssistantMessageEvent::Done { message: Message::Assistant { content, .. }, .. } => {
            content.clone()
        }
        other => panic!("expected done, got {:?}", other),
    }
}

#[test]
fn completions_url_drops_trailing_slashes() {
    assert_eq!(chat_completions_url("https://api.openai.com"), "https://api.openai.com/chat/completions");
    assert_eq!(chat_completions_url("https://x.y/v1//"), "https://x.y/v1/chat/completions");
    assert_eq!(chat_completions_url(""), "/chat/completions");
}

#[test]
fn messages_become_role_and_text() {
    let m = message_to_openai(Message::user("hi")).unwrap();
    assert_eq!((m.role.as_str(), m.content.as_str()), ("user", "hi"));
    let a = Message::Assistant {
        content: vec![
            ContentBlock::Text { text: "a".into(), text_signature: None },
            ContentBlock::Thinking { thinking: "t".into(), thinking_signature: None, redacted: None },
            ContentBlock::Text { text: "b".into(), text_signature: None },
        ],
        api: "x".into(),
        provider: "x".into(),
        model: "x".into(),
        response_id: None,
        usage: Usage::default(),
        stop_reason: StopReason::Stop,
        error_message: None,
        timestamp: 0,
    };
    let o = message_to_openai(a).unwrap();
    assert_eq!((o.role.as_str(), o.content.as_str()), ("assistant", "ab"));
    let t = Message::ToolResult {
        tool_call_id: "1".into(),
        tool_name: "n".into(),
        content: vec![ContentBlock::Text { text: "r".into(), text_signature: None }],
        is_error: false,
        timestamp: 0,
    };
    let o = message_to_openai(t).unwrap();
    assert_eq!((o.role.as_str(), o.content.as_str()), ("tool", "r"));
    let blocks = Message::User {
        content: UserContent::Blocks(vec![
            ContentBlock::Text { text: "x".into(), text_signature: None },
            ContentBlock::Image { data: "d".into(), mime_type: "image/png".into() },
        ]),
        timestamp: 0,
    };
    assert_eq!(messages_to_openai(&vec![blocks])[0].content, "x");
}

#[test]
fn request_body_carries_options_and_tools() {
    let tools = Some(vec![Tool { name: "t".into(), description: "d".into(), parameters: Value::Null }]);
    let mut options = StreamOptions::default();
    options.temperature = Some(0.7f32.to_bits());
    options.max_tokens = Some(64);
    options.stop = Some(vec!["END".into()]);
    let body = build_completion_request("qwen", &None, &vec![Message::user("Say hello")], &options, true, &tools);
    assert_eq!(body.model, "qwen");
    assert!(body.stream);
    assert_eq!(body.messages.len(), 1);
    let with_system = build_completion_request(
        "qwen",
        &Some("be brief".into()),
        &vec![Message::user("Say hello")],
        &options,
        true,
        &None,
    );
    assert_eq!(with_system.messages.len(), 2);
    assert_eq!((with_system.messages[0].role.as_str(), with_system.messages[0].content.as_str()), ("system", "be brief"));
    assert_eq!((with_system.messages[1].role.as_str(), with_system.messages[1].content.as_str()), ("user", "Say hello"));
    assert!(with_system.tools.is_none());
    assert_eq!(bearer_key(&Some("opt".into()), "cfg"), "opt");
    assert_eq!(bearer_key(&None, "cfg"), "cfg");
    assert_eq!(body.temperature.map(f32::from_bits), Some(0.7));
    assert_eq!(body.max_tokens, Some(64));
    assert_eq!(body.stop, Some(vec!["END".to_string()]));
    let ts = body.tools.unwrap();
    assert_eq!(ts[0].tool_type, "function");
    assert_eq!(ts[0].function.name, "t");
    assert!(tools_to_openai(&None).is_none());
}

#[test]
fn completion_takes_the_first_choice() {
    let data = OpenAIChatCompletionResponse {
        model: "qwen".into(),
        choices: vec![OpenAIChoice {
            message: OpenAIAssistantMessage { content: "hello".into() },
            finish_reason: Some("stop".into()),
        }],
        usage: Some(OpenAIUsage { prompt_tokens: 3, completion_tokens: 2, total_tokens: 5 }),
    };
    let r = completion_response(data).unwrap();
    assert_eq!(r.model, "qwen");
    assert_eq!(r.content, "hello");
    assert_eq!(r.finish_reason.as_deref(), Some("stop"));
    let u = r.usage.unwrap();
    assert_eq!((u.input, u.output, u.total_tokens), (3, 2, 5));

    let empty = OpenAIChatCompletionResponse { model: "q".into(), choices: vec![], usage: None };
    match completion_response(empty) {
        Err(AIError::Provider(t)) => assert_eq!(t, "response choices is empty"),
        other => panic!("unexpected {:?}", other),
    }
}

#[test]
fn error_texts() {
    assert_eq!(request_failed_error("timeout").message(), "provider error: request failed: timeout");
    assert_eq!(status_error("500", "oops").message(), "provider error: provider returned 500: oops");
    assert_eq!(invalid_json_error("eof").message(), "provider error: invalid response json: eof");
}

#[test]
fn sse_lines_are_classified() {
    assert!(matches!(classify_sse_line("data: [DONE]"), SseLine::Done));
    assert!(matches!(classify_sse_line("data: [DONE]  \r"), SseLine::Done));
    match classify_sse_line("data: {\"a\":1}\n") {
        SseLine::Data(d) => assert_eq!(d, "{\"a\":1}"),
        other => panic!("unexpected {:?}", other),
    }
    assert!(matches!(classify_sse_line(": keep-alive"), SseLine::Skip));
    assert!(matches!(classify_sse_line(""), SseLine::Skip));
    assert!(matches!(classify_sse_line("event: x"), SseLine::Skip));
    assert!(white_space('\t'));
    assert!(!white_space('x'));
}

#[test]
fn text_chunks_stream_deltas_and_assemble() {
    let mut state = OpenAIStreamState::new("qwen");
    let e1 = state.on_chunk(&chunk(text_delta("Hel"), None));
    let e2 = state.on_chunk(&chunk(text_delta("lo"), Some("stop")));
    let e3 = state.on_chunk(&chunk(text_delta(""), None));
    assert_eq!(e1.len(), 1);
    assert!(matches!(&e1[0], AssistantMessageEvent::TextDelta { delta, content_index: 0, .. } if delta == "Hel"));
    assert!(matches!(&e2[0], AssistantMessageEvent::TextDelta { delta, .. } if delta == "lo"));
    assert!(e3.is_empty());
    let done = state.finish();
    match &done {
        AssistantMessageEvent::Done { reason, message: Message::Assistant { model, api, .. } } => {
            assert_eq!(*reason, StopReason::Stop);
            assert_eq!(model, "qwen");
            assert_eq!(api, "openai-compatible");
        }
        other => panic!("unexpected {:?}", other),
    }
    let content = content_of(&done);
    assert_eq!(content.len(), 1);
    assert!(matches!(&content[0], ContentBlock::Text { text, .. } if text == "Hello"));
}

#[test]
fn reasoning_then_text_orders_blocks() {
    let mut state = OpenAIStreamState::new("m");
    let e = state.on_chunk(&chunk(
        OpenAIDelta { content: None, reasoning_content: Some("think".into()), tool_calls: None },
        None,
    ));
    assert!(matches!(e[0], AssistantMessageEvent::ThinkingStart { .. }));
    assert!(matches!(e[1], AssistantMessageEvent::ThinkingDelta { .. }));
    let e = state.on_chunk(&chunk(
        OpenAIDelta { content: None, reasoning_content: Some("more".into()), tool_calls: None },
        None,
    ));
    assert_eq!(e.len(), 1);
    let e = state.on_chunk(&chunk(text_delta("answer"), Some("length")));
    assert!(matches!(e[0], AssistantMessageEvent::TextDelta { content_index: 1, .. }));
    let done = state.finish();
    assert!(matches!(done, AssistantMessageEvent::Done { reason: StopReason::Length, .. }));
    let content = content_of(&done);
    assert!(matches!(&content[0], ContentBlock::Thinking { thinking, .. } if thinking == "thinkmore"));
    assert!(matches!(&content[1], ContentBlock::Text { text, .. } if text == "answer"));
}

#[test]
fn tool_call_deltas_merge_by_index_in_order() {
    let mut state = OpenAIStreamState::new("m");
    let tc = |ds: Vec<OpenAIToolCallDelta>| {
        chunk(OpenAIDelta { content: None, reasoning_content: None, tool_calls: Some(ds) }, None)
    };
    let e = state.on_chunk(&tc(vec![call_delta(1, Some("b"), Some("second"), Some("{\"y\":"))]));
    // The only block so far is this call's.
    assert!(matches!(e[0], AssistantMessageEvent::ToolCallStart { content_index: 0, .. }));
    assert!(matches!(&e[1], AssistantMessageEvent::ToolCallDelta { delta, content_index: 0, .. } if delta == "{\"y\":"));
    let e = state.on_chunk(&tc(vec![
        call_delta(0, Some("a"), Some("first"), Some("{}")),
        call_delta(1, None, None, Some("2}")),
    ]));
    assert_eq!(e.len(), 3);
    // Call 0 sorts first; call 1 moves to the second block.
    assert!(matches!(e[0], AssistantMessageEvent::ToolCallStart { content_index: 0, .. }));
    assert!(matches!(e[1], AssistantMessageEvent::ToolCallDelta { content_index: 0, .. }));
    assert!(matches!(e[2], AssistantMessageEvent::ToolCallDelta { content_index: 1, .. }));
    for ev in &e {
        if let AssistantMessageEvent::ToolCallDelta { content_index, partial: Message::Assistant { content, .. }, .. } = ev {
            assert!(matches!(content[*content_index], ContentBlock::ToolCall { .. }));
        }
    }
    let _ = state.on_chunk(&chunk(OpenAIDelta { content: None, reasoning_content: None, tool_calls: None }, Some("tool_calls")));
    let done = state.finish();
    assert!(matches!(done, AssistantMessageEvent::Done { reason: StopReason::ToolUse, .. }));
    let content = content_of(&done);
    assert_eq!(content.len(), 2);
    match (&content[0], &content[1]) {
        (
            ContentBlock::ToolCall { id: id0, name: n0, arguments: a0, .. },
            ContentBlock::ToolCall { id: id1, name: n1, arguments: a1, .. },
        ) => {
            assert_eq!((id0.as_str(), n0.as_str()), ("a", "first"));
            assert_eq!((id1.as_str(), n1.as_str()), ("b", "second"));
            assert_eq!(*a0, serde_json::from_str::<Value>("{}").unwrap());
            assert_eq!(*a1, serde_json::from_str::<Value>("{\"y\":2}").unwrap());
        }
        other => panic!("unexpected {:?}", other),
    }
}

#[test]
fn malformed_tool_arguments_read_as_null() {
    let mut state = OpenAIStreamState::new("m");
    let c = chunk(
        OpenAIDelta {
            content: None,
            reasoning_content: None,
            tool_calls: Some(vec![call_delta(0, Some("a"), Some("f"), Some("{oops"))]),
        },
        None,
    );
    let _ = state.on_chunk(&c);
    let content = content_of(&state.finish());
    assert!(matches!(&content[0], ContentBlock::ToolCall { arguments: Value::Null, .. }));
}

#[test]
fn chunk_without_choices_changes_nothing() {
    let mut state = OpenAIStreamState::new("m");
    let empty = OpenAIStreamChunk { id: "i".into(), model: "m".into(), choices: vec![], usage: None };
    assert!(state.on_chunk(&empty).is_empty());
    assert!(content_of(&state.finish()).is_empty());
}

#[test]
fn start_and_error_events() {
    match stream_start_event("m") {
        AssistantMessageEvent::Start { partial: Message::Assistant { content, model, stop_reason, .. } } => {
            assert!(content.is_empty());
            assert_eq!(model, "m");
            assert_eq!(stop_reason, StopReason::Stop);
        }
        other => panic!("unexpected {:?}", other),
    }
    match stream_error_event("m", "bad".into()) {
        AssistantMessageEvent::Error { reason, error: Message::Assistant { error_message, .. } } => {
            assert_eq!(reason, StopReason::Error);
            assert_eq!(error_message.as_deref(), Some("bad"));
        }
        other => panic!("unexpected {:?}", other),
    }
}

#[test]
fn provider_keeps_its_config() {
    let p = OpenAICompatibleProvider::new(OpenAICompatibleConfig {
        api_key: "k".into(),
        base_url: "https://h".into(),
    });
    assert_eq!(p.config().api_key, "k");
    assert_eq!(p.config().base_url, "https://h");
    assert_eq!(p.api(), "openai-completions");
}

#[test]
fn tool_call_position_follows_thinking_and_text() {
    let mut state = OpenAIStreamState::new("m");
    let _ = state.on_chunk(&chunk(
        OpenAIDelta { content: Some("hi".into()), reasoning_content: Some("r".into()), tool_calls: None },
        None,
    ));
    let e = state.on_chunk(&chunk(
        OpenAIDelta {
            content: None,
            reasoning_content: None,
            tool_calls: Some(vec![call_delta(5, Some("a"), Some("f"), None)]),
        },
        None,
    ));
    match &e[0] {
        AssistantMessageEvent::ToolCallStart { content_index, partial: Message::Assistant { content, .. } } => {
            assert_eq!(*content_index, 2);
            assert!(matches!(&content[2], ContentBlock::ToolCall { id, .. } if id == "a"));
        }
        other => panic!("unexpected {:?}", other),
    }
}

#[test]
fn body_lines_skip_apply_and_stop() {
    let mut state = OpenAIStreamState::new("m");
    let (events, over) = state.on_line(&SseLine::Skip, None);
    assert!(events.is_empty() && !over);
    let (events, over) = state.on_line(&SseLine::Data("{not json".into()), None);
    assert!(events.is_empty() && !over);
    let line = classify_sse_line("data: {}");
    let (events, over) = state.on_line(&line, Some(chunk(text_delta("he"), None)));
    assert_eq!(events.len(), 1);
    assert!(!over);
    let (events, over) = state.on_line(&SseLine::Data("{}".into()), Some(chunk(text_delta("llo"), Some("stop"))));
    assert_eq!(events.len(), 1);
    assert!(!over);
    let (events, over) = state.on_line(&classify_sse_line("data: [DONE]"), None);
    assert!(events.is_empty() && over);
    match content_of(&state.finish()).as_slice() {
        [ContentBlock::Text { text, .. }] => assert_eq!(text, "hello"),
        other => panic!("unexpected {:?}", other),
    }
}

#[test]
fn thinking_is_the_concatenation_of_its_deltas() {
    let mut state = OpenAIStreamState::new("m");
    let reasoning = |r: &str| OpenAIDelta { content: None, reasoning_content: Some(r.into()), tool_calls: None };
    let first = state.on_line(&SseLine::Data("{}".into()), Some(chunk(reasoning("let me "), None))).0;
    assert!(matches!(first[0], AssistantMessageEvent::ThinkingStart { content_index: 0, .. }));
    let second = state.on_line(&SseLine::Data("{}".into()), Some(chunk(reasoning("think"), None))).0;
    assert_eq!(second.len(), 1);
    match &second[0] {
        AssistantMessageEvent::ThinkingDelta { delta, .. } => assert_eq!(delta, "think"),
        other => panic!("unexpected {:?}", other),
    }
    match content_of(&state.finish()).as_slice() {
        [ContentBlock::Thinking { thinking, .. }] => assert_eq!(thinking, "let me think"),
        other => panic!("unexpected {:?}", other),
    }
}

#[test]
fn tool_call_indices_are_checked() {
    assert!(tool_call_indices_fit(&chunk(text_delta("x"), None)));
    let fits = OpenAIDelta { content: None, reasoning_content: None, tool_calls: Some(vec![call_delta(3, None, None, None)]) };
    assert!(tool_call_indices_fit(&chunk(fits, None)));
    let too_far = OpenAIDelta {
        content: None,
        reasoning_content: None,
        tool_calls: Some(vec![call_delta(0, None, None, None), call_delta(usize::MAX - 1, None, None, None)]),
    };
    assert!(!tool_call_indices_fit(&chunk(too_far, None)));
    let no_choices = OpenAIStreamChunk { id: "i".into(), model: "m".into(), choices: vec![], usage: None };
    assert!(tool_call_indices_fit(&no_choices));
}
