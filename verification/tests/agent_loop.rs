use std::collections::VecDeque;

use pi_agent::agent::agent_loop::{
    llm_context, make_stream_ended_message, resolve_api_key, single_response_message,
    single_response_reports, AgentLoop, LoopPhase, LoopRequest, LoopStep,
};
use pi_agent::agent::tool_calls::{
    blocked_result, filter_tool_calls, find_tool, finalize_executed_tool_call,
    should_terminate_tool_batch, tool_not_found, FinalizedToolCallOutcome,
};
use pi_agent::agent::types::{
    create_error_tool_result, AfterToolCallResult, AgentContext, AgentEvent, AgentMessage,
    AgentState, AgentToolInfo, AgentToolResult, BeforeToolCallResult, CustomMessage,
    ThinkingLevel, ToolExecutionMode,
};
use pi_agent::message::{ContentBlock, Message, StopReason, UserContent};
use pi_agent::providers::faux::{FauxProvider, FauxResponseStep};
use pi_agent::stream::AssistantMessageEvent;
use pi_agent::types::{Model, Usage};
use serde_json::Value;

#[derive(Debug, PartialEq, Eq)]
enum Tag {
    AgentStart,
    AgentEnd,
    TurnStart,
    TurnEnd,
    MessageStart,
    MessageUpdate,
    MessageEnd,
    ToolStart,
    ToolEnd,
}

fn tag(e: &AgentEvent) -> Tag {
    match e {
        AgentEvent::AgentStart => Tag::AgentStart,
        AgentEvent::AgentEnd { .. } => Tag::AgentEnd,
        AgentEvent::TurnStart => Tag::TurnStart,
        AgentEvent::TurnEnd { .. } => Tag::TurnEnd,
        AgentEvent::MessageStart { .. } => Tag::MessageStart,
        AgentEvent::MessageUpdate { .. } => Tag::MessageUpdate,
        AgentEvent::MessageEnd { .. } => Tag::MessageEnd,
        AgentEvent::ToolExecutionStart { .. } => Tag::ToolStart,
        AgentEvent::ToolExecutionEnd { .. } => Tag::ToolEnd,
        AgentEvent::ToolExecutionUpdate { .. } => Tag::ToolEnd,
    }
}

fn assistant_text(text: &str) -> Message {
    Message::Assistant {
        content: vec![ContentBlock::Text { text: text.into(), text_signature: None }],
        api: "faux".into(),
        provider: "faux".into(),
        model: "faux-model".into(),
        response_id: None,
        usage: Usage::default(),
        stop_reason: StopReason::Stop,
        error_message: None,
        timestamp: 0,
    }
}

fn tool_call(id: &str, name: &str) -> ContentBlock {
    ContentBlock::ToolCall {
        id: id.into(),
        name: name.into(),
        arguments: serde_json::from_str("{\"x\":1}").unwrap(),
        thought_signature: None,
    }
}

fn assistant_calls(calls: Vec<ContentBlock>) -> Message {
    let mut content = vec![ContentBlock::Text { text: "calling".into(), text_signature: None }];
    content.extend(calls);
    Message::Assistant {
        content,
        api: "faux".into(),
        provider: "faux".into(),
        model: "faux-model".into(),
        response_id: None,
        usage: Usage::default(),
        stop_reason: StopReason::ToolUse,
        error_message: None,
        timestamp: 0,
    }
}

fn finished_stream(m: Message) -> Vec<AssistantMessageEvent> {
    vec![
        AssistantMessageEvent::Start { partial: assistant_text("") },
        AssistantMessageEvent::Done { reason: StopReason::Stop, message: m },
    ]
}

fn tool(name: &str, mode: ToolExecutionMode) -> AgentToolInfo {
    AgentToolInfo {
        name: name.into(),
        label: name.into(),
        description: format!("the {} tool", name),
        parameters: Value::Null,
        execution_mode: mode,
    }
}

fn user(text: &str) -> AgentMessage {
    AgentMessage::User { content: UserContent::Plain(text.into()), timestamp: 0 }
}

fn empty_context(tools: Option<Vec<AgentToolInfo>>) -> AgentContext {
    AgentContext { system_prompt: String::new(), messages: vec![], tools }
}

fn text_result(text: &str) -> AgentToolResult {
    AgentToolResult {
        content: vec![ContentBlock::Text { text: text.into(), text_signature: None }],
        details: Value::Bool(true),
        terminate: false,
    }
}

/// What the outside world answers the loop with.
#[derive(Default)]
struct World {
    streams: VecDeque<Vec<AssistantMessageEvent>>,
    steering: VecDeque<Vec<AgentMessage>>,
    follow_ups: VecDeque<Vec<AgentMessage>>,
    before: VecDeque<Option<BeforeToolCallResult>>,
    results: VecDeque<(AgentToolResult, Option<AfterToolCallResult>)>,
    prepared: Vec<(usize, Value)>,
    executed: Vec<(usize, String)>,
}

/// Runs the loop until it finishes.
fn drive(mut lp: AgentLoop, first: LoopStep, world: &mut World) -> (AgentLoop, Vec<AgentEvent>, bool) {
    let mut events = first.events;
    let mut request = first.request;
    let mut stream: VecDeque<AssistantMessageEvent> = VecDeque::new();
    loop {
        let step = match request {
            LoopRequest::SteeringMessages => {
                lp.on_steering(world.steering.pop_front().unwrap_or_default())
            }
            LoopRequest::FollowUpMessages => {
                lp.on_follow_up(world.follow_ups.pop_front().unwrap_or_default())
            }
            LoopRequest::StreamAssistant | LoopRequest::NextStreamEvent => {
                if let LoopRequest::StreamAssistant = request {
                    stream = world.streams.pop_front().unwrap_or_default().into();
                }
                match stream.pop_front() {
                    Some(e) => lp.on_stream_event(e),
                    None => lp.on_stream_end(),
                }
            }
            LoopRequest::PrepareTool { tool_index, arguments } => {
                world.prepared.push((tool_index, arguments.clone()));
                lp.on_tool_prepared(arguments, world.before.pop_front().unwrap_or(None))
            }
            LoopRequest::ExecuteTool { tool_index, tool_call_id, .. } => {
                world.executed.push((tool_index, tool_call_id));
                let (result, after) = world.results.pop_front().unwrap();
                lp.on_tool_executed(result, after)
            }
            LoopRequest::ExecuteTools { executions } => {
                let mut results = vec![];
                let mut afters = vec![];
                for e in &executions {
                    world.executed.push((e.tool_index, e.tool_call_id.clone()));
                    let (result, after) = world.results.pop_front().unwrap();
                    results.push(result);
                    afters.push(after);
                }
                lp.on_tools_executed(results, afters)
            }
            LoopRequest::Finished => return (lp, events, true),
        };
        events.extend(step.events);
        request = step.request;
    }
}

fn run(
    prompts: Vec<AgentMessage>,
    context: AgentContext,
    mode: ToolExecutionMode,
    world: &mut World,
) -> (AgentLoop, Vec<AgentEvent>, bool) {
    let (lp, step) = AgentLoop::start(prompts, context, mode);
    drive(lp, step, world)
}

fn tool_result_of(m: &AgentMessage) -> (String, String, String, bool) {
    match m {
        AgentMessage::ToolResult { tool_call_id, tool_name, content, is_error, .. } => {
            let text = content
                .iter()
                .map(|b| match b {
                    ContentBlock::Text { text, .. } => text.as_str(),
                    _ => "",
                })
                .collect::<String>();
            (tool_call_id.clone(), tool_name.clone(), text, *is_error)
        }
        other => panic!("expected a tool result, got {:?}", other),
    }
}

#[test]
fn pure_text_response() {
    let mut provider = FauxProvider::new();
    provider.set_responses(vec![FauxResponseStep::Static(assistant_text("hello world"))]);
    let mut world = World::default();
    world.streams.push_back(provider.stream_events("faux-model"));

    let prompt = AgentMessage::User { content: UserContent::Plain("Hi".into()), timestamp: 0 };
    let (lp, events, finished) =
        run(vec![prompt], empty_context(None), ToolExecutionMode::Sequential, &mut world);
    assert!(finished);

    let tags: Vec<Tag> = events.iter().map(tag).collect();
    assert!(matches!(
        tags.as_slice(),
        [
            Tag::AgentStart,
            Tag::TurnStart,
            Tag::MessageStart,
            Tag::MessageEnd,
            Tag::MessageStart,
            updates @ ..,
            Tag::MessageEnd,
            Tag::TurnEnd,
            Tag::AgentEnd,
        ] if !updates.is_empty()
            && updates.iter().all(|t| *t == Tag::MessageUpdate)
    ));

    let (context, new_messages) = lp.finish();
    assert_eq!(new_messages.len(), 2);
    assert_eq!(context.messages.len(), 2);
    match &context.messages[1] {
        AgentMessage::Assistant { content, stop_reason, .. } => {
            assert_eq!(*stop_reason, StopReason::Stop);
            assert!(matches!(&content[0], ContentBlock::Text { text, .. } if text == "hello world"));
        }
        other => panic!("expected assistant, got {:?}", other),
    }
    match events.last().unwrap() {
        AgentEvent::AgentEnd { messages } => assert_eq!(messages.len(), 2),
        _ => panic!("expected agent end"),
    }
}

#[test]
fn error_stop_reason() {
    let mut provider = FauxProvider::new();
    let mut world = World::default();
    world.streams.push_back(provider.stream_events("faux-model"));

    let prompt = AgentMessage::User { content: UserContent::Plain("Hi".into()), timestamp: 0 };
    let (lp, _events, _) =
        run(vec![prompt], empty_context(None), ToolExecutionMode::Sequential, &mut world);
    let (context, _) = lp.finish();

    let last = context.messages.last().expect("no messages");
    if let AgentMessage::Assistant { stop_reason, error_message, .. } = last {
        assert_eq!(*stop_reason, StopReason::Error);
        assert!(error_message.is_some());
    } else {
        panic!("expected assistant, got {:?}", last);
    }
}

#[test]
fn error_ends_turn_and_run_at_once() {
    let mut provider = FauxProvider::new();
    let mut world = World::default();
    world.streams.push_back(provider.stream_events("faux-model"));
    let (lp, events, finished) =
        run(vec![user("Hi")], empty_context(None), ToolExecutionMode::Sequential, &mut world);
    assert!(finished);
    let tags: Vec<Tag> = events.iter().map(tag).collect();
    assert_eq!(
        tags,
        vec![
            Tag::AgentStart,
            Tag::TurnStart,
            Tag::MessageStart,
            Tag::MessageEnd,
            Tag::MessageStart,
            Tag::MessageEnd,
            Tag::TurnEnd,
            Tag::AgentEnd,
        ]
    );
    assert_eq!(lp.new_messages().len(), 2);
}

#[test]
fn tool_calls_run_in_order_and_answer_each_call() {
    let mut world = World::default();
    world.streams.push_back(finished_stream(assistant_calls(vec![
        tool_call("c1", "echo"),
        tool_call("c2", "echo"),
    ])));
    world.streams.push_back(finished_stream(assistant_text("done")));
    world.before.push_back(None);
    world.before.push_back(Some(BeforeToolCallResult { block: false, reason: None }));
    world.results.push_back((text_result("one"), None));
    world.results.push_back((text_result("two"), None));

    let tools = vec![tool("other", ToolExecutionMode::Sequential), tool("echo", ToolExecutionMode::Sequential)];
    let (lp, events, finished) =
        run(vec![user("go")], empty_context(Some(tools)), ToolExecutionMode::Sequential, &mut world);
    assert!(finished);

    assert_eq!(world.prepared.len(), 2);
    assert_eq!(world.prepared[0].0, 1);
    assert_eq!(world.prepared[0].1, serde_json::from_str::<Value>("{\"x\":1}").unwrap());
    assert_eq!(world.executed, vec![(1, "c1".to_string()), (1, "c2".to_string())]);

    let tags: Vec<Tag> = events.iter().map(tag).collect();
    assert_eq!(
        tags,
        vec![
            Tag::AgentStart,
            Tag::TurnStart,
            Tag::MessageStart,
            Tag::MessageEnd,
            Tag::MessageStart,
            Tag::MessageEnd,
            Tag::ToolStart,
            Tag::ToolEnd,
            Tag::MessageStart,
            Tag::MessageEnd,
            Tag::ToolStart,
            Tag::ToolEnd,
            Tag::MessageStart,
            Tag::MessageEnd,
            Tag::TurnEnd,
            Tag::TurnStart,
            Tag::MessageStart,
            Tag::MessageEnd,
            Tag::TurnEnd,
            Tag::AgentEnd,
        ]
    );
    let turn_end = events.iter().find(|e| matches!(e, AgentEvent::TurnEnd { .. })).unwrap();
    match turn_end {
        AgentEvent::TurnEnd { tool_results, .. } => {
            assert_eq!(tool_results.len(), 2);
            assert_eq!(tool_result_of(&tool_results[0]), ("c1".into(), "echo".into(), "one".into(), false));
            assert_eq!(tool_result_of(&tool_results[1]), ("c2".into(), "echo".into(), "two".into(), false));
        }
        _ => unreachable!(),
    }
    match &events[7] {
        AgentEvent::ToolExecutionEnd { tool_call_id, result, is_error, .. } => {
            assert_eq!(tool_call_id, "c1");
            assert_eq!(*result, Value::Bool(true));
            assert!(!*is_error);
        }
        other => panic!("unexpected {:?}", other),
    }
    let (context, new_messages) = lp.finish();
    // user, assistant with calls, two results, final assistant
    assert_eq!(new_messages.len(), 5);
    assert_eq!(context.messages.len(), 5);
}

#[test]
fn unknown_tool_gets_an_error_result_at_once() {
    let mut world = World::default();
    world.streams.push_back(finished_stream(assistant_calls(vec![tool_call("c1", "nope")])));
    world.streams.push_back(finished_stream(assistant_text("ok")));
    let (lp, events, finished) = run(
        vec![user("go")],
        empty_context(Some(vec![tool("echo", ToolExecutionMode::Sequential)])),
        ToolExecutionMode::Sequential,
        &mut world,
    );
    assert!(finished);
    assert!(world.prepared.is_empty());
    let results = match events.iter().find(|e| matches!(e, AgentEvent::TurnEnd { .. })).unwrap() {
        AgentEvent::TurnEnd { tool_results, .. } => tool_results,
        _ => unreachable!(),
    };
    assert_eq!(
        tool_result_of(&results[0]),
        ("c1".into(), "nope".into(), "Tool nope not found".into(), true)
    );
    assert_eq!(lp.new_messages().len(), 4);
}

#[test]
fn blocked_call_gets_the_hook_reason() {
    let mut world = World::default();
    world.streams.push_back(finished_stream(assistant_calls(vec![
        tool_call("c1", "echo"),
        tool_call("c2", "echo"),
    ])));
    world.streams.push_back(finished_stream(assistant_text("ok")));
    world.before.push_back(Some(BeforeToolCallResult { block: true, reason: Some("not now".into()) }));
    world.before.push_back(Some(BeforeToolCallResult { block: true, reason: None }));
    let (_lp, events, finished) = run(
        vec![user("go")],
        empty_context(Some(vec![tool("echo", ToolExecutionMode::Sequential)])),
        ToolExecutionMode::Sequential,
        &mut world,
    );
    assert!(finished);
    assert!(world.executed.is_empty());
    let results = match events.iter().find(|e| matches!(e, AgentEvent::TurnEnd { .. })).unwrap() {
        AgentEvent::TurnEnd { tool_results, .. } => tool_results,
        _ => unreachable!(),
    };
    assert_eq!(tool_result_of(&results[0]).2, "not now");
    assert_eq!(tool_result_of(&results[1]).2, "Tool execution was blocked");
    assert!(tool_result_of(&results[1]).3);
}

#[test]
fn after_hook_overrides_and_terminate_ends_the_run() {
    let mut world = World::default();
    world.streams.push_back(finished_stream(assistant_calls(vec![tool_call("c1", "echo")])));
    world.results.push_back((
        text_result("raw"),
        Some(AfterToolCallResult {
            content: Some(vec![ContentBlock::Text { text: "patched".into(), text_signature: None }]),
            details: Some(Value::Bool(false)),
            is_error: Some(true),
            terminate: Some(true),
        }),
    ));
    let (lp, events, finished) = run(
        vec![user("go")],
        empty_context(Some(vec![tool("echo", ToolExecutionMode::Sequential)])),
        ToolExecutionMode::Sequential,
        &mut world,
    );
    assert!(finished);
    // No second assistant turn: the batch asked to stop.
    assert!(world.streams.is_empty());
    assert_eq!(events.iter().filter(|e| matches!(e, AgentEvent::TurnStart)).count(), 1);
    let end = events.iter().find(|e| matches!(e, AgentEvent::ToolExecutionEnd { .. })).unwrap();
    match end {
        AgentEvent::ToolExecutionEnd { result, is_error, .. } => {
            assert_eq!(*result, Value::Bool(false));
            assert!(*is_error);
        }
        _ => unreachable!(),
    }
    assert_eq!(
        tool_result_of(&lp.new_messages()[2]),
        ("c1".into(), "echo".into(), "patched".into(), true)
    );
}

#[test]
fn parallel_calls_start_together_and_end_in_order() {
    let mut world = World::default();
    world.streams.push_back(finished_stream(assistant_calls(vec![
        tool_call("c1", "echo"),
        tool_call("c2", "nope"),
        tool_call("c3", "other"),
    ])));
    world.streams.push_back(finished_stream(assistant_text("done")));
    world.before.push_back(None);
    world.before.push_back(None);
    world.results.push_back((text_result("one"), None));
    world.results.push_back((
        text_result("three"),
        Some(AfterToolCallResult { content: None, details: None, is_error: Some(true), terminate: None }),
    ));
    let tools = vec![tool("echo", ToolExecutionMode::Parallel), tool("other", ToolExecutionMode::Parallel)];
    let (lp, events, finished) =
        run(vec![user("go")], empty_context(Some(tools)), ToolExecutionMode::Parallel, &mut world);
    assert!(finished);
    assert_eq!(world.prepared.len(), 2);
    assert_eq!(world.executed, vec![(0, "c1".to_string()), (1, "c3".to_string())]);

    let tags: Vec<Tag> = events.iter().map(tag).collect();
    assert_eq!(
        tags,
        vec![
            Tag::AgentStart,
            Tag::TurnStart,
            Tag::MessageStart,
            Tag::MessageEnd,
            Tag::MessageStart,
            Tag::MessageEnd,
            Tag::ToolStart,
            Tag::ToolStart,
            Tag::ToolStart,
            Tag::ToolEnd,
            Tag::MessageStart,
            Tag::MessageEnd,
            Tag::ToolEnd,
            Tag::MessageStart,
            Tag::MessageEnd,
            Tag::ToolEnd,
            Tag::MessageStart,
            Tag::MessageEnd,
            Tag::TurnEnd,
            Tag::TurnStart,
            Tag::MessageStart,
            Tag::MessageEnd,
            Tag::TurnEnd,
            Tag::AgentEnd,
        ]
    );
    let ids: Vec<&str> = events
        .iter()
        .filter_map(|e| match e {
            AgentEvent::ToolExecutionStart { tool_call_id, .. } => Some(tool_call_id.as_str()),
            AgentEvent::ToolExecutionEnd { tool_call_id, .. } => Some(tool_call_id.as_str()),
            _ => None,
        })
        .collect();
    assert_eq!(ids, vec!["c1", "c2", "c3", "c1", "c2", "c3"]);
    let news = lp.new_messages();
    assert_eq!(news.len(), 6);
    assert_eq!(tool_result_of(&news[2]), ("c1".into(), "echo".into(), "one".into(), false));
    assert_eq!(
        tool_result_of(&news[3]),
        ("c2".into(), "nope".into(), "Tool nope not found".into(), true)
    );
    assert_eq!(tool_result_of(&news[4]), ("c3".into(), "other".into(), "three".into(), true));
}

#[test]
fn parallel_blocked_call_is_not_run() {
    let mut world = World::default();
    world.streams.push_back(finished_stream(assistant_calls(vec![
        tool_call("c1", "echo"),
        tool_call("c2", "echo"),
    ])));
    world.streams.push_back(finished_stream(assistant_text("ok")));
    world.before.push_back(Some(BeforeToolCallResult { block: true, reason: Some("not now".into()) }));
    world.before.push_back(None);
    world.results.push_back((text_result("two"), None));
    let (lp, _events, finished) = run(
        vec![user("go")],
        empty_context(Some(vec![tool("echo", ToolExecutionMode::Parallel)])),
        ToolExecutionMode::Parallel,
        &mut world,
    );
    assert!(finished);
    assert_eq!(world.executed, vec![(0, "c2".to_string())]);
    let news = lp.new_messages();
    assert_eq!(tool_result_of(&news[2]), ("c1".into(), "echo".into(), "not now".into(), true));
    assert_eq!(tool_result_of(&news[3]), ("c2".into(), "echo".into(), "two".into(), false));
}

#[test]
fn parallel_batch_of_unknown_tools_runs_nothing() {
    let (mut lp, _) = AgentLoop::start(vec![user("go")], empty_context(None), ToolExecutionMode::Parallel);
    let _ = lp.on_steering(vec![]);
    let _ = lp.on_stream_event(AssistantMessageEvent::Start { partial: assistant_text("") });
    let step = lp.on_stream_event(AssistantMessageEvent::Done {
        reason: StopReason::ToolUse,
        message: assistant_calls(vec![tool_call("c1", "a"), tool_call("c2", "b")]),
    });
    let starts = step.events.iter().filter(|e| matches!(e, AgentEvent::ToolExecutionStart { .. })).count();
    assert_eq!(starts, 2);
    assert!(!step.events.iter().any(|e| matches!(e, AgentEvent::ToolExecutionEnd { .. })));
    match step.request {
        LoopRequest::ExecuteTools { executions } => assert!(executions.is_empty()),
        other => panic!("unexpected {:?}", other),
    }
    assert!(lp.tool_call_at(1).is_some());
    assert!(lp.tool_call_at(2).is_none());
    let done = lp.on_tools_executed(vec![], vec![]);
    assert!(matches!(done.request, LoopRequest::SteeringMessages));
    assert_eq!(done.events.len(), 7);
    assert_eq!(lp.new_messages().len(), 4);
}

#[test]
fn a_sequential_tool_makes_the_batch_sequential() {
    let mut world = World::default();
    world.streams.push_back(finished_stream(assistant_calls(vec![tool_call("c1", "echo")])));
    world.streams.push_back(finished_stream(assistant_text("ok")));
    world.results.push_back((text_result("one"), None));
    let (_lp, _events, finished) = run(
        vec![user("go")],
        empty_context(Some(vec![tool("echo", ToolExecutionMode::Sequential)])),
        ToolExecutionMode::Parallel,
        &mut world,
    );
    assert!(finished);
    assert_eq!(world.executed.len(), 1);
}

#[test]
fn steering_and_follow_up_open_new_turns() {
    let mut world = World::default();
    world.streams.push_back(finished_stream(assistant_text("a1")));
    world.streams.push_back(finished_stream(assistant_text("a2")));
    world.streams.push_back(finished_stream(assistant_text("a3")));
    world.steering.push_back(vec![]);
    world.steering.push_back(vec![user("steer")]);
    world.steering.push_back(vec![]);
    world.follow_ups.push_back(vec![user("more")]);
    let (lp, events, finished) =
        run(vec![user("go")], empty_context(None), ToolExecutionMode::Sequential, &mut world);
    assert!(finished);
    assert_eq!(events.iter().filter(|e| matches!(e, AgentEvent::TurnStart)).count(), 3);
    assert_eq!(events.iter().filter(|e| matches!(e, AgentEvent::TurnEnd { .. })).count(), 3);
    // go, a1, steer, a2, more, a3
    assert_eq!(lp.new_messages().len(), 6);
    match events.last().unwrap() {
        AgentEvent::AgentEnd { messages } => assert_eq!(messages.len(), 6),
        _ => panic!("expected agent end"),
    }
}

#[test]
fn continue_from_a_user_message() {
    let mut world = World::default();
    world.streams.push_back(finished_stream(assistant_text("answer")));
    let context = AgentContext { system_prompt: "sys".into(), messages: vec![user("q")], tools: None };
    let (lp, step) = AgentLoop::continue_from(context, ToolExecutionMode::Sequential);
    assert_eq!(step.events.iter().map(tag).collect::<Vec<_>>(), vec![Tag::AgentStart, Tag::TurnStart]);
    let (lp, events, finished) = drive(lp, step, &mut world);
    assert!(finished);
    assert_eq!(events.iter().filter(|e| matches!(e, AgentEvent::TurnStart)).count(), 1);
    let (context, new_messages) = lp.finish();
    assert_eq!(new_messages.len(), 1);
    assert_eq!(context.messages.len(), 2);
}

#[test]
fn stream_without_response_is_not_added_to_the_context() {
    let mut world = World::default();
    world.streams.push_back(vec![]);
    let (lp, events, finished) =
        run(vec![user("go")], empty_context(None), ToolExecutionMode::Sequential, &mut world);
    assert!(finished);
    let tags: Vec<Tag> = events.iter().map(tag).collect();
    assert_eq!(
        tags,
        vec![Tag::AgentStart, Tag::TurnStart, Tag::MessageStart, Tag::MessageEnd, Tag::TurnEnd, Tag::AgentEnd]
    );
    let (context, new_messages) = lp.finish();
    assert_eq!(context.messages.len(), 1);
    match &new_messages[1] {
        AgentMessage::Assistant { error_message, stop_reason, .. } => {
            assert_eq!(error_message.as_deref(), Some("Stream ended without response"));
            assert_eq!(*stop_reason, StopReason::Error);
        }
        other => panic!("unexpected {:?}", other),
    }
}

#[test]
fn stream_that_closes_after_start_delivers_the_partial() {
    let mut world = World::default();
    world.streams.push_back(vec![AssistantMessageEvent::Start { partial: assistant_text("part") }]);
    let (lp, events, finished) =
        run(vec![user("go")], empty_context(None), ToolExecutionMode::Sequential, &mut world);
    assert!(finished);
    assert_eq!(events.iter().filter(|e| matches!(e, AgentEvent::MessageEnd { .. })).count(), 2);
    let (context, _) = lp.finish();
    assert_eq!(context.messages.len(), 2);
}

#[test]
fn updates_replace_the_streamed_message() {
    let mut world = World::default();
    world.streams.push_back(vec![
        AssistantMessageEvent::TextDelta { content_index: 0, delta: "x".into(), partial: assistant_text("x") },
        AssistantMessageEvent::Start { partial: assistant_text("") },
        AssistantMessageEvent::TextDelta { content_index: 0, delta: "a".into(), partial: assistant_text("a") },
        AssistantMessageEvent::TextDelta { content_index: 0, delta: "b".into(), partial: assistant_text("ab") },
    ]);
    let prompt = user("go");
    let (lp, step) = AgentLoop::start(vec![prompt], empty_context(None), ToolExecutionMode::Sequential);
    let mut lp = lp;
    assert!(matches!(step.request, LoopRequest::SteeringMessages));
    let s = lp.on_steering(vec![]);
    assert!(matches!(s.request, LoopRequest::StreamAssistant));
    let mut stream: VecDeque<AssistantMessageEvent> = world.streams.pop_front().unwrap().into();
    // An update before Start is ignored.
    let s = lp.on_stream_event(stream.pop_front().unwrap());
    assert!(s.events.is_empty());
    assert_eq!(lp.context().messages.len(), 1);
    let s = lp.on_stream_event(stream.pop_front().unwrap());
    assert_eq!(s.events.len(), 1);
    assert_eq!(lp.context().messages.len(), 2);
    lp.on_stream_event(stream.pop_front().unwrap());
    let s = lp.on_stream_event(stream.pop_front().unwrap());
    assert!(matches!(s.events[0], AgentEvent::MessageUpdate { .. }));
    match &lp.context().messages[1] {
        AgentMessage::Assistant { content, .. } => {
            assert!(matches!(&content[0], ContentBlock::Text { text, .. } if text == "ab"))
        }
        other => panic!("unexpected {:?}", other),
    }
    let s = lp.on_stream_end();
    assert!(matches!(s.events[0], AgentEvent::MessageEnd { .. }));
    assert!(matches!(s.request, LoopRequest::SteeringMessages));
}

#[test]
fn helpers_of_the_tool_batch() {
    let m = assistant_calls(vec![tool_call("c1", "a"), tool_call("c2", "b")]);
    let calls = filter_tool_calls(&m);
    assert_eq!(calls.len(), 2);
    let tools = Some(vec![tool("b", ToolExecutionMode::Parallel), tool("b", ToolExecutionMode::Sequential)]);
    assert_eq!(find_tool(&tools, &"b".to_string()), Some(0));
    assert_eq!(find_tool(&tools, &"a".to_string()), None);
    assert_eq!(find_tool(&None, &"b".to_string()), None);
    assert_eq!(tool_not_found(&"zz".to_string()), "Tool zz not found");
    assert!(blocked_result(None).is_none());
    assert!(blocked_result(Some(BeforeToolCallResult { block: false, reason: Some("r".into()) })).is_none());
    let blocked = blocked_result(Some(BeforeToolCallResult::default()));
    assert!(blocked.is_none());

    let fin = finalize_executed_tool_call(tool_call("c1", "a"), text_result("r"), false, Some(AfterToolCallResult::default()));
    assert!(!fin.is_error);
    assert!(!fin.result.terminate);
    let stop = |t: bool| FinalizedToolCallOutcome {
        tool_call: tool_call("c", "a"),
        result: AgentToolResult { content: vec![], details: Value::Null, terminate: t },
        is_error: false,
    };
    assert!(!should_terminate_tool_batch(&vec![]));
    assert!(should_terminate_tool_batch(&vec![stop(true), stop(true)]));
    assert!(!should_terminate_tool_batch(&vec![stop(true), stop(false)]));
    let err = create_error_tool_result("bad".into());
    assert_eq!(err.details, Value::Null);
    assert!(!err.terminate);
}

#[test]
fn llm_context_and_api_key() {
    let context = AgentContext {
        system_prompt: "sys".into(),
        messages: vec![],
        tools: Some(vec![tool("echo", ToolExecutionMode::Sequential)]),
    };
    let c = llm_context(&context, vec![Message::user("hi")]);
    assert_eq!(c.system_prompt.as_deref(), Some("sys"));
    assert_eq!(c.messages.len(), 1);
    let tools = c.tools.unwrap();
    assert_eq!(tools[0].name, "echo");
    assert_eq!(tools[0].description, "the echo tool");
    assert_eq!(resolve_api_key(Some("a".into()), Some("b".into())).as_deref(), Some("a"));
    assert_eq!(resolve_api_key(None, Some("b".into())).as_deref(), Some("b"));
    assert_eq!(resolve_api_key(None, None), None);
    match make_stream_ended_message() {
        Message::Assistant { timestamp, .. } => assert_eq!(timestamp, 0),
        _ => panic!("expected assistant"),
    }
}

#[test]
fn agent_messages_convert_to_model_messages() {
    let custom = AgentMessage::Custom(CustomMessage { key: 7, timestamp: 42 });
    assert_eq!(custom.timestamp(), 42);
    assert!(custom.into_llm_message().is_none());
    let m = AgentMessage::from_message(Message::user("x"));
    assert!(matches!(m.clone().into_llm_message(), Some(Message::User { .. })));
    assert_eq!(ThinkingLevel::default(), ThinkingLevel::Off);
    assert_eq!(ThinkingLevel::High.as_str(), "high");
    assert_eq!(ThinkingLevel::Xhigh.as_str(), "xhigh");
    assert_eq!(ToolExecutionMode::default(), ToolExecutionMode::Sequential);
}

#[test]
fn agent_state_starts_empty() {
    let mut state = AgentState::new(Model::default());
    assert!(state.tools().is_empty());
    assert!(state.messages().is_empty());
    assert!(!state.is_streaming);
    state.set_messages(vec![user("a")]);
    assert_eq!(state.messages().len(), 1);
    state.set_tools(vec![tool("t", ToolExecutionMode::Sequential)]);
    assert_eq!(state.tools().len(), 1);
    assert_eq!(state.thinking_level, ThinkingLevel::Off);
}

#[test]
fn phases_follow_the_requests() {
    let (mut lp, step) = AgentLoop::start(vec![], empty_context(None), ToolExecutionMode::Sequential);
    assert!(matches!(step.request, LoopRequest::SteeringMessages));
    let s = lp.on_steering(vec![]);
    assert!(matches!(s.request, LoopRequest::StreamAssistant));
    let _ = LoopPhase::Streaming;
}

#[test]
fn single_response_preflights_but_runs_nothing() {
    let context = AgentContext {
        system_prompt: String::new(),
        messages: vec![user("hi")],
        tools: Some(vec![tool("echo", ToolExecutionMode::Sequential)]),
    };
    let (mut lp, step) = AgentLoop::single_response(context);
    assert_eq!(step.events.iter().map(tag).collect::<Vec<_>>(), vec![Tag::AgentStart, Tag::TurnStart]);
    assert!(step.request.asks_for_stream());
    let s = lp.on_stream_event(AssistantMessageEvent::Start { partial: assistant_text("") });
    assert!(s.request.asks_for_stream());
    let s = lp.on_stream_event(AssistantMessageEvent::Done {
        reason: StopReason::ToolUse,
        message: assistant_calls(vec![tool_call("c1", "echo")]),
    });
    assert!(!s.request.asks_for_stream());
    assert!(matches!(s.request, LoopRequest::PrepareTool { tool_index: 0, .. }));
    let reported: Vec<Tag> = s.events.iter().filter(|e| single_response_reports(e)).map(tag).collect();
    assert_eq!(reported, vec![Tag::MessageEnd]);
    let (context, new_messages) = lp.finish();
    assert_eq!(context.messages.len(), 2);
    match single_response_message(new_messages) {
        Message::Assistant { stop_reason, .. } => assert_eq!(stop_reason, StopReason::ToolUse),
        other => panic!("unexpected {:?}", other),
    }
}

#[test]
fn single_response_helpers() {
    assert!(!single_response_reports(&AgentEvent::AgentEnd { messages: vec![] }));
    assert!(single_response_reports(&AgentEvent::AgentStart));
    assert!(!LoopRequest::SteeringMessages.asks_for_stream());
    assert!(LoopRequest::NextStreamEvent.asks_for_stream());
    match single_response_message(vec![]) {
        Message::Assistant { content, .. } => assert!(content.is_empty()),
        other => panic!("unexpected {:?}", other),
    }
    let custom = AgentMessage::Custom(CustomMessage { key: 1, timestamp: 2 });
    assert!(matches!(single_response_message(vec![custom]), Message::Assistant { .. }));
    assert!(matches!(single_response_message(vec![user("x")]), Message::User { .. }));
}
