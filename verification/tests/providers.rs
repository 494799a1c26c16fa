use pi_agent::api_registry::{
    clear_api_providers, get_api_provider, register_api_provider, unregister_api_providers,
    ApiRegistry,
};
use pi_agent::error::AIError;
use pi_agent::message::{millis_since_epoch, now_ms, ContentBlock, Message, Role, StopReason, UserContent};
use pi_agent::provider::{generate_from_events, generate_on_stream_end, generate_setup};
use pi_agent::providers::faux::{
    estimate_tokens, extract_all_text, extract_assistant_text, split_into_token_deltas,
    FauxProvider, FauxProviderState, FauxResponseStep,
};
use pi_agent::providers::mock::{mock_response, MockProvider};
use pi_agent::stream::{result_of_events, AssistantMessageEvent};
use pi_agent::types::{Cost, GenerateRequest, Model, Usage};

fn assistant_message(text: &str) -> Message {
    Message::Assistant {
        content: vec![ContentBlock::Text { text: text.into(), text_signature: None }],
        api: "faux".into(),
        provider: "faux".into(),
        model: "faux-model".into(),
        response_id: None,
        usage: Usage::default(),
        stop_reason: StopReason::Stop,
        error_message: None,
        timestamp: 0,
    }
}

fn message_text(m: &Message) -> String {
    match m {
        Message::Assistant { content, .. } => content
            .iter()
            .map(|b| match b {
                ContentBlock::Text { text, .. } => text.as_str(),
                _ => "",
            })
            .collect::<Vec<_>>()
            .join(""),
        _ => panic!("expected assistant message"),
    }
}

fn mock_generate(req: GenerateRequest) -> Result<pi_agent::types::GenerateResponse, AIError> {
    let provider = MockProvider;
    let (model, context, _options) = generate_setup(req, provider.api());
    let events = provider.stream_events(&model, &context);
    generate_from_events(model.id.as_str(), &events)
}

fn faux_stream(provider: &mut FauxProvider, req: GenerateRequest) -> Vec<AssistantMessageEvent> {
    provider.stream_events(req.model.as_str())
}

#[test]
fn mock_test_generate_response() {
    let req = GenerateRequest::new("Mock Model", vec![Message::user("Who are you?")])
        .temperature(0.7f32.to_bits())
        .max_tokens(128);

    let resp = mock_generate(req).unwrap();

    assert_eq!(resp.model, "Mock Model");
    assert!(resp.content.contains("Who"));
    assert_eq!(resp.finish_reason.as_deref(), Some("stop"));
}

#[test]
fn mock_test_stream_response() {
    let provider = MockProvider;
    let req = GenerateRequest::new("MockModel", vec![Message::user("Who are you?")])
        .temperature(0.8f32.to_bits())
        .max_tokens(128);
    let (model, context, _options) = generate_setup(req, provider.api());
    let events = provider.stream_events(&model, &context);
    let mut deltas = 0;

    for event in events {
        match event {
            AssistantMessageEvent::Start { .. } => {}
            AssistantMessageEvent::TextDelta { delta, .. } => {
                assert!(!delta.is_empty());
                deltas += 1;
            }
            AssistantMessageEvent::Done { message, .. } => {
                if let Message::Assistant { .. } = message {
                    let text = message_text(&message);
                    assert!(text.contains("mock response to:"));
                    assert!(text.contains("Who are you?"));
                } else {
                    panic!("Expected assistant message");
                }
                break;
            }
            other => panic!("unexpected event: {:?}", other),
        }
    }

    assert!(deltas > 0, "expected at least one text delta");
}

#[test]
fn mock_answers_the_last_user_message() {
    let messages = vec![
        Message::user("first question"),
        assistant_message("an answer"),
        Message::user("second question"),
        assistant_message("another answer"),
    ];
    assert_eq!(mock_response(&messages), "mock response to: second question");
    assert_eq!(mock_response(&vec![]), "mock response to: empty input");
    let resp = mock_generate(GenerateRequest::new("m", messages)).unwrap();
    assert_eq!(resp.content, "mock response to: second question");
    assert_eq!(resp.usage, Some(Usage::default()));
}

#[test]
fn mock_streams_one_character_per_delta() {
    let provider = MockProvider;
    let (model, context, _options) =
        generate_setup(GenerateRequest::new("m", vec![Message::user("ab")]), provider.api());
    let events = provider.stream_events(&model, &context);
    let expected = "mock response to: ab";
    assert_eq!(events.len(), expected.chars().count() + 2);
    let deltas: Vec<String> = events
        .iter()
        .filter_map(|e| match e {
            AssistantMessageEvent::TextDelta { delta, .. } => Some(delta.clone()),
            _ => None,
        })
        .collect();
    assert!(deltas.iter().all(|d| d.chars().count() == 1));
    assert_eq!(deltas.concat(), expected);
    assert_eq!(provider.api(), "mock");
}

#[test]
fn faux_generate_returns_registered_response() {
    let mut provider = FauxProvider::new();
    provider.set_responses(vec![FauxResponseStep::Static(assistant_message("hello from faux"))]);

    let req = GenerateRequest::new("faux-model", vec![Message::user("hi")]);
    let resp = provider.generate(&req).unwrap();

    assert_eq!(resp.content, "hello from faux");
    assert_eq!(resp.model, "faux-model");
    assert_eq!(resp.finish_reason.as_deref(), Some("stop"));
}

#[test]
fn faux_generate_estimates_usage() {
    let mut provider = FauxProvider::new();
    provider.set_responses(vec![FauxResponseStep::Static(assistant_message("hello from faux"))]);
    let req = GenerateRequest::new("faux-model", vec![Message::user("hi there")]);
    let resp = provider.generate(&req).unwrap();
    let usage = resp.usage.unwrap();
    // "hi there" is 8 bytes, "hello from faux" 15 bytes: a token per four bytes, rounded up.
    assert_eq!(usage.input, 2);
    assert_eq!(usage.output, 4);
    assert_eq!(usage.total_tokens, 6);
    assert_eq!(usage.cache_read, 0);
    assert_eq!(usage.cost, Cost::default());
    assert_eq!(provider.call_count(), 1);
}

#[test]
fn faux_stream_emits_events_in_order() {
    let mut provider = FauxProvider::new();
    provider.set_responses(vec![FauxResponseStep::Static(assistant_message("hello"))]);

    let req = GenerateRequest::new("faux-model", vec![Message::user("hi")]);
    let events = faux_stream(&mut provider, req);

    let mut event_types = Vec::new();
    let mut final_text = String::new();

    for event in events {
        match event {
            AssistantMessageEvent::Start { .. } => event_types.push("start"),
            AssistantMessageEvent::TextDelta { delta, .. } => {
                event_types.push("delta");
                final_text.push_str(&delta);
            }
            AssistantMessageEvent::Done { message, .. } => {
                event_types.push("done");
                if let Message::Assistant { .. } = message {
                    assert_eq!(message_text(&message), "hello");
                }
                break;
            }
            other => panic!("unexpected event: {:?}", other),
        }
    }

    assert_eq!(event_types, vec!["start", "delta", "delta", "delta", "done"]);
    assert_eq!(final_text, "hello");
}

#[test]
fn faux_stream_empty_queue_emits_error() {
    let mut provider = FauxProvider::new();

    let req = GenerateRequest::new("faux-model", vec![Message::user("hi")]);
    let events = faux_stream(&mut provider, req);

    for event in events {
        match event {
            AssistantMessageEvent::Error { reason, .. } => {
                assert_eq!(reason, StopReason::Error);
                return;
            }
            other => panic!("expected error event, got {:?}", other),
        }
    }

    panic!("stream ended without error event");
}

#[test]
fn faux_handle_methods_work() {
    let mut provider = FauxProvider::new();

    assert_eq!(provider.get_pending_response_count(), 0);

    provider.set_responses(vec![
        FauxResponseStep::Static(assistant_message("first")),
        FauxResponseStep::Static(assistant_message("second")),
    ]);
    assert_eq!(provider.get_pending_response_count(), 2);

    provider.append_responses(vec![FauxResponseStep::Static(assistant_message("third"))]);
    assert_eq!(provider.get_pending_response_count(), 3);

    let req = GenerateRequest::new("faux-model", vec![Message::user("hi")]);
    let _ = provider.generate(&req).unwrap();
    assert_eq!(provider.get_pending_response_count(), 2);

    provider.clear_responses();
    assert_eq!(provider.get_pending_response_count(), 0);
}

#[test]
fn faux_fifo_ordering() {
    let mut provider = FauxProvider::new();
    provider.set_responses(vec![
        FauxResponseStep::Static(assistant_message("first")),
        FauxResponseStep::Static(assistant_message("second")),
    ]);

    let req1 = GenerateRequest::new("faux-model", vec![Message::user("a")]);
    let resp1 = provider.generate(&req1).unwrap();
    assert_eq!(resp1.content, "first");

    let req2 = GenerateRequest::new("faux-model", vec![Message::user("b")]);
    let resp2 = provider.generate(&req2).unwrap();
    assert_eq!(resp2.content, "second");
}

#[test]
fn faux_stream_consumes_one_response_per_call() {
    let mut provider = FauxProvider::new();
    provider.set_responses(vec![
        FauxResponseStep::Static(assistant_message("one")),
        FauxResponseStep::Static(assistant_message("two")),
    ]);
    let first = provider.stream_events("faux-model");
    let second = provider.stream_events("faux-model");
    let third = provider.stream_events("faux-model");
    assert_eq!(message_text(&result_of_events(&first).unwrap()), "one");
    assert_eq!(message_text(&result_of_events(&second).unwrap()), "two");
    match result_of_events(&third).unwrap() {
        Message::Assistant { stop_reason, error_message, model, .. } => {
            assert_eq!(stop_reason, StopReason::Error);
            assert_eq!(error_message.as_deref(), Some("no responses registered"));
            assert_eq!(model, "faux-model");
        }
        _ => panic!("expected assistant message"),
    }
    assert_eq!(provider.call_count(), 3);
    let _state = FauxProviderState { call_count: 0 };
}

#[test]
fn stream_push_and_result() {
    let partial = Message::user("hello");
    let done_message = Message::Assistant {
        content: vec![ContentBlock::Text { text: "world".to_string(), text_signature: None }],
        api: "test".to_string(),
        provider: "test".to_string(),
        model: "mock_model".to_string(),
        response_id: None,
        usage: Usage::default(),
        stop_reason: StopReason::Stop,
        error_message: None,
        timestamp: 0,
    };
    let events = vec![
        AssistantMessageEvent::Start { partial: partial.clone() },
        AssistantMessageEvent::TextDelta {
            content_index: 0,
            delta: "world".to_string(),
            partial,
        },
        AssistantMessageEvent::Done { reason: StopReason::Stop, message: done_message },
    ];

    assert!(matches!(events[0], AssistantMessageEvent::Start { .. }));
    assert!(matches!(events[1], AssistantMessageEvent::TextDelta { .. }));

    let result = result_of_events(&events).unwrap();
    assert!(matches!(result, Message::Assistant { .. }));
    assert_eq!(message_text(&result), "world");
}

#[test]
fn result_is_none_without_done_or_error() {
    let events = vec![AssistantMessageEvent::Start { partial: Message::user("x") }];
    assert!(result_of_events(&events).is_none());
    match generate_from_events("m", &events) {
        Err(e) => assert_eq!(e.message(), "provider error: stream ended without done or error"),
        Ok(_) => panic!("expected an error"),
    }
    assert!(matches!(generate_on_stream_end(), AIError::Provider(_)));
}

#[test]
fn generate_reports_error_events() {
    let error = Message::Assistant {
        content: vec![],
        api: "a".into(),
        provider: "a".into(),
        model: "m".into(),
        response_id: None,
        usage: Usage::default(),
        stop_reason: StopReason::Error,
        error_message: Some("boom".into()),
        timestamp: 0,
    };
    let events = vec![AssistantMessageEvent::Error { reason: StopReason::Error, error }];
    match generate_from_events("m", &events) {
        Err(AIError::Provider(text)) => assert_eq!(text, "boom"),
        other => panic!("unexpected {:?}", other),
    }
}

#[test]
fn split_into_token_deltas_chunks_characters() {
    assert_eq!(split_into_token_deltas("hello", 2), vec!["he", "ll", "o"]);
    assert_eq!(split_into_token_deltas("héllo", 2), vec!["hé", "ll", "o"]);
    assert_eq!(split_into_token_deltas("", 2), Vec::<String>::new());
    assert_eq!(split_into_token_deltas("abc", 5), vec!["abc"]);
    assert_eq!(split_into_token_deltas("abc", 1).concat(), "abc");
}

#[test]
fn estimate_tokens_rounds_bytes_up_by_four() {
    assert_eq!(estimate_tokens(""), 0);
    assert_eq!(estimate_tokens("a"), 1);
    assert_eq!(estimate_tokens("abcd"), 1);
    assert_eq!(estimate_tokens("abcde"), 2);
    // "é" takes two bytes.
    assert_eq!(estimate_tokens("ééé"), 2);
}

#[test]
fn extract_text_of_messages() {
    let messages = vec![
        Message::user("ab"),
        Message::user_blocks(vec![Message::text_block("cd"), Message::image_block("xx", "image/png")]),
        assistant_message("ef"),
        Message::ToolResult {
            tool_call_id: "1".into(),
            tool_name: "t".into(),
            content: vec![Message::text_block("ignored")],
            is_error: false,
            timestamp: 0,
        },
    ];
    assert_eq!(extract_all_text(&messages), "abcdef");
    assert_eq!(extract_assistant_text(&assistant_message("xyz")), "xyz");
}

#[test]
fn stop_reason_and_role_names() {
    assert_eq!(StopReason::Stop.to_str(), "stop");
    assert_eq!(StopReason::Length.to_str(), "length");
    assert_eq!(StopReason::ToolUse.to_str(), "toolUse");
    assert_eq!(StopReason::Error.to_str(), "error");
    assert_eq!(StopReason::Aborted.to_str(), "aborted");
    assert_ne!(Role::User, Role::Assistant);
}

#[test]
fn user_message_holds_plain_text() {
    match Message::user("hi") {
        Message::User { content: UserContent::Plain(t), .. } => assert_eq!(t, "hi"),
        _ => panic!("expected a user message"),
    }
}

#[test]
fn ai_error_messages() {
    assert_eq!(AIError::InvalidRequest("x".into()).message(), "invalid request: x");
    assert_eq!(AIError::Provider("y".into()).message(), "provider error: y");
    assert_eq!(AIError::Unsupported("z".into()).message(), "unsupported features: z");
}

#[test]
fn generate_setup_copies_the_request() {
    let req = GenerateRequest::new("gpt", vec![Message::user("q")])
        .temperature(0.5f32.to_bits())
        .max_tokens(10)
        .top_p(0.9f32.to_bits());
    let (model, context, options) = generate_setup(req, "mock");
    assert_eq!(model.id, "gpt");
    assert_eq!(model.name, "gpt");
    assert_eq!(model.api, "mock");
    assert_eq!(model.provider, "mock");
    assert_eq!(context.messages.len(), 1);
    assert!(context.system_prompt.is_none());
    assert_eq!(options.temperature.map(f32::from_bits), Some(0.5));
    assert_eq!(options.max_tokens, Some(10));
    assert_eq!(options.top_p.map(f32::from_bits), Some(0.9));
    assert!(options.api_key.is_none());
}

#[test]
fn model_default_is_text_only() {
    let model = Model::default();
    assert_eq!(model.id, "");
    assert_eq!(model.input, vec!["text".to_string()]);
    assert!(!model.reasoning);
    assert_eq!(model.context_window, 0);
    assert!(model.headers.is_none());
}

#[test]
fn registry_register_get_unregister() {
    let mut registry: ApiRegistry<u32> = ApiRegistry::new();
    register_api_provider(&mut registry, "a", 1, Some("s1"));
    register_api_provider(&mut registry, "b", 2, Some("s1"));
    register_api_provider(&mut registry, "c", 3, Some("s2"));
    register_api_provider(&mut registry, "d", 4, None);
    assert_eq!(get_api_provider(&registry, "a"), Some(&1));
    assert_eq!(get_api_provider(&registry, "z"), None);

    register_api_provider(&mut registry, "a", 10, None);
    assert_eq!(get_api_provider(&registry, "a"), Some(&10));

    unregister_api_providers(&mut registry, "s1");
    // Withdrawing a source withdraws every api it registered, re-registered or not.
    assert_eq!(get_api_provider(&registry, "a"), None);
    assert_eq!(get_api_provider(&registry, "b"), None);
    assert_eq!(get_api_provider(&registry, "c"), Some(&3));
    assert_eq!(get_api_provider(&registry, "d"), Some(&4));

    clear_api_providers(&mut registry);
    assert_eq!(get_api_provider(&registry, "c"), None);
    assert_eq!(get_api_provider(&registry, "d"), None);
}

#[test]
fn timestamps_from_clock_readings() {
    assert_eq!(millis_since_epoch(Some(1_700_000_000_123)), 1_700_000_000_123);
    assert_eq!(millis_since_epoch(Some((1u128 << 64) + 5)), 5);
    assert_eq!(millis_since_epoch(None), 0);
    assert!(now_ms() > 1_600_000_000_000);
}
