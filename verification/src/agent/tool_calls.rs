//! Tool calls of an assistant message: finding their tools, and turning
//! their results into tool result messages.
use vstd::prelude::*;
use vstd::string::*;

use crate::agent::types::{
    AfterToolCallResult, AgentMessage, AgentMessageView, AgentToolInfo, AgentToolResult,
    AgentToolResultView, BeforeToolCallResult, ToolExecutionMode, create_error_tool_result,
    error_tool_result,
};
use crate::message::{ContentBlock, ContentBlockView, Message, MessageView, clone_blocks, now_ms};

verus! {

/// A tool call with its final result.
#[derive(Debug)]
pub struct FinalizedToolCallOutcome {
    pub tool_call: ContentBlock,
    pub result: AgentToolResult,
    pub is_error: bool,
}

/// Whether a tool result message answers a tool call: same id and name.
pub open spec fn answers_call(result: AgentMessageView, call: ContentBlockView) -> bool {
    match (result, call) {
        (
            AgentMessageView::Llm(MessageView::ToolResult { tool_call_id, tool_name, .. }),
            ContentBlockView::ToolCall { id, name, .. },
        ) => tool_call_id == id && tool_name == name,
        _ => false,
    }
}

/// The tool call blocks of a list of blocks, in order.
pub open spec fn tool_calls_in(bs: Seq<ContentBlockView>) -> Seq<ContentBlockView>
    decreases bs.len(),
{
    if bs.len() == 0 {
        Seq::empty()
    } else {
        tool_calls_in(bs.drop_last()) + if bs.last() is ToolCall {
            seq![bs.last()]
        } else {
            Seq::empty()
        }
    }
}

/// The tool call blocks of an assistant message; none for other messages.
pub open spec fn tool_calls_of(m: MessageView) -> Seq<ContentBlockView> {
    match m {
        MessageView::Assistant { content, .. } => tool_calls_in(content),
        _ => Seq::empty(),
    }
}

/// Every block `tool_calls_in` keeps is a tool call.
pub proof fn lemma_tool_calls_in_are_calls(bs: Seq<ContentBlockView>)
    ensures
        forall|k: int| 0 <= k < tool_calls_in(bs).len() ==> #[trigger] tool_calls_in(bs)[k] is ToolCall,
    decreases bs.len(),
{
    if bs.len() > 0 {
        lemma_tool_calls_in_are_calls(bs.drop_last());
    }
}

/// The tool call blocks of a message, in order.
pub fn filter_tool_calls(m: &Message) -> (r: Vec<ContentBlock>)
    ensures
        r.deep_view() == tool_calls_of(m@),
{
    match m {
        Message::Assistant { content, .. } => {
            let mut r: Vec<ContentBlock> = Vec::new();
            let mut i: usize = 0;
            while i < content.len()
                invariant
                    i <= content.len(),
                    r.deep_view() == tool_calls_in(content.deep_view().take(i as int)),
                decreases content.len() - i,
            {
                assert(content.deep_view().take(i + 1).drop_last() =~= content.deep_view().take(
                    i as int,
                ));
                let ghost before = r.deep_view();
                match &content[i] {
                    ContentBlock::ToolCall { .. } => {
                        r.push(content[i].clone());
                        assert(r.deep_view() =~= before + seq![content@[i as int].deep_view()]);
                    },
                    _ => {
                        assert(r.deep_view() =~= before + Seq::<ContentBlockView>::empty());
                    },
                }
                i = i + 1;
            }
            assert(content.deep_view().take(i as int) =~= content.deep_view());
            r
        },
        _ => {
            let r: Vec<ContentBlock> = Vec::new();
            assert(r.deep_view() =~= Seq::<ContentBlockView>::empty());
            r
        },
    }
}

/// The position of the first tool of a given name.
pub open spec fn first_tool_named(tools: Seq<AgentToolInfo>, name: Seq<char>) -> Option<int>
    decreases tools.len(),
{
    if tools.len() == 0 {
        None
    } else if tools[0].name@ == name {
        Some(0)
    } else {
        match first_tool_named(tools.drop_first(), name) {
            Some(i) => Some(i + 1),
            None => None,
        }
    }
}

/// The position of the tool a name resolves to in a context's tools.
pub open spec fn resolve_tool(tools: Option<Seq<AgentToolInfo>>, name: Seq<char>) -> Option<int> {
    match tools {
        Some(ts) => first_tool_named(ts, name),
        None => None,
    }
}

/// The tools of a context, as a sequence.
pub open spec fn tools_view(tools: Option<Vec<AgentToolInfo>>) -> Option<Seq<AgentToolInfo>> {
    match tools {
        Some(ts) => Some(ts@),
        None => None,
    }
}

/// `first_tool_named` finds the first tool of that name, or says there is none.
pub proof fn lemma_first_tool_named(tools: Seq<AgentToolInfo>, name: Seq<char>)
    ensures
        match first_tool_named(tools, name) {
            Some(i) => 0 <= i < tools.len() && tools[i].name@ == name && forall|j: int|
                0 <= j < i ==> #[trigger] tools[j].name@ != name,
            None => forall|j: int| 0 <= j < tools.len() ==> #[trigger] tools[j].name@ != name,
        },
    decreases tools.len(),
{
    if tools.len() > 0 && tools[0].name@ != name {
        lemma_first_tool_named(tools.drop_first(), name);
        assert forall|j: int| 1 <= j < tools.len() implies tools[j] == tools.drop_first()[j - 1] by {}
    }
}

/// The position of the first tool named `name`, if the context has tools.
pub fn find_tool(tools: &Option<Vec<AgentToolInfo>>, name: &String) -> (r: Option<usize>)
    ensures
        match r {
            Some(i) => resolve_tool(tools_view(*tools), name@) == Some(i as int),
            None => resolve_tool(tools_view(*tools), name@) is None,
        },
{
    match tools {
        None => None,
        Some(ts) => {
            proof {
                lemma_first_tool_named(ts@, name@);
            }
            let mut i: usize = 0;
            while i < ts.len()
                invariant
                    i <= ts.len(),
                    tools_view(*tools) == Some(ts@),
                    forall|j: int| 0 <= j < i ==> #[trigger] ts@[j].name@ != name@,
                decreases ts.len() - i,
            {
                if ts[i].name == *name {
                    proof {
                        lemma_first_tool_named(ts@, name@);
                        assert(ts@[i as int].name@ == name@);
                        match first_tool_named(ts@, name@) {
                            Some(k) => {
                                if k < i {
                                    assert(ts@[k].name@ != name@);
                                } else if k > i {
                                    assert(ts@[i as int].name@ != name@);
                                }
                            },
                            None => {
                                assert(ts@[i as int].name@ != name@);
                            },
                        }
                    }
                    return Some(i);
                }
                i = i + 1;
            }
            proof {
                lemma_first_tool_named(ts@, name@);
                if let Some(k) = first_tool_named(ts@, name@) {
                    assert(ts@[k].name@ != name@);
                }
            }
            None
        },
    }
}

/// Whether one of the calls resolves to a tool that must run sequentially.
pub open spec fn uses_sequential_tool(
    tools: Option<Seq<AgentToolInfo>>,
    calls: Seq<ContentBlockView>,
) -> bool {
    exists|k: int|
        0 <= k < calls.len() && match #[trigger] calls[k] {
            ContentBlockView::ToolCall { name, .. } => match resolve_tool(tools, name) {
                Some(i) => tools->0[i].execution_mode == ToolExecutionMode::Sequential,
                None => false,
            },
            _ => false,
        }
}

/// Whether one of the calls resolves to a tool that must run sequentially.
pub fn has_sequential_tool(tools: &Option<Vec<AgentToolInfo>>, calls: &Vec<ContentBlock>) -> (b: bool)
    ensures
        b == uses_sequential_tool(tools_view(*tools), calls.deep_view()),
{
    let mut k: usize = 0;
    while k < calls.len()
        invariant
            k <= calls.len(),
            forall|j: int| 0 <= j < k ==> !(match #[trigger] calls.deep_view()[j] {
                ContentBlockView::ToolCall { name, .. } => match resolve_tool(tools_view(*tools), name) {
                    Some(i) => tools_view(*tools)->0[i].execution_mode == ToolExecutionMode::Sequential,
                    None => false,
                },
                _ => false,
            }),
        decreases calls.len() - k,
    {
        match &calls[k] {
            ContentBlock::ToolCall { name, .. } => {
                match find_tool(tools, name) {
                    Some(i) => {
                        let ts = tools.as_ref().unwrap();
                        proof {
                            lemma_first_tool_named(ts@, name@);
                        }
                        if ts[i].execution_mode == ToolExecutionMode::Sequential {
                            assert(calls.deep_view()[k as int] == calls@[k as int].deep_view());
                            return true;
                        }
                    },
                    None => {},
                }
            },
            _ => {},
        }
        assert(calls.deep_view()[k as int] == calls@[k as int].deep_view());
        k = k + 1;
    }
    false
}

/// The text of the error result for a call of an unknown tool.
pub open spec fn tool_not_found_text(name: Seq<char>) -> Seq<char> {
    "Tool "@ + name + " not found"@
}

/// The outcome of a call whose tool is not found: an error result saying so.
pub open spec fn not_found_outcome(name: Seq<char>) -> (AgentToolResultView, bool) {
    (error_tool_result(tool_not_found_text(name)), true)
}

/// The text of the error result for a call of an unknown tool.
pub fn tool_not_found(name: &String) -> (s: String)
    ensures
        s@ == tool_not_found_text(name@),
{
    "Tool ".to_owned().concat(name.as_str()).concat(" not found")
}

/// The error result of a call the before-call hook blocked, if it did.
pub open spec fn blocked_outcome(before: Option<BeforeToolCallResult>) -> Option<AgentToolResultView> {
    match before {
        Some(b) => if b.block {
            Some(
                error_tool_result(
                    match b.reason {
                        Some(r) => r@,
                        None => "Tool execution was blocked"@,
                    },
                ),
            )
        } else {
            None
        },
        None => None,
    }
}

/// The error result of a call the before-call hook blocked, if it did.
pub fn blocked_result(before: Option<BeforeToolCallResult>) -> (r: Option<AgentToolResult>)
    ensures
        match r {
            Some(x) => blocked_outcome(before) == Some(x@),
            None => blocked_outcome(before) is None,
        },
{
    match before {
        Some(b) => {
            if b.block {
                let text = match b.reason {
                    Some(reason) => reason,
                    None => "Tool execution was blocked".to_owned(),
                };
                Some(create_error_tool_result(text))
            } else {
                None
            }
        },
        None => None,
    }
}

/// A tool's result with the after-call hook's overrides applied, and whether it is an error.
pub open spec fn after_applied(
    result: AgentToolResultView,
    is_error: bool,
    after: Option<AfterToolCallResult>,
) -> (AgentToolResultView, bool) {
    match after {
        Some(a) => (
            AgentToolResultView {
                content: match a.content {
                    Some(c) => c.deep_view(),
                    None => result.content,
                },
                details: match a.details {
                    Some(d) => d,
                    None => result.details,
                },
                terminate: match a.terminate {
                    Some(t) => t,
                    None => result.terminate,
                },
            },
            match a.is_error {
                Some(e) => e,
                None => is_error,
            },
        ),
        None => (result, is_error),
    }
}

/// Applies the after-call hook's overrides to an executed call's result.
pub fn finalize_executed_tool_call(
    tool_call: ContentBlock,
    result: AgentToolResult,
    is_error: bool,
    after: Option<AfterToolCallResult>,
) -> (r: FinalizedToolCallOutcome)
    ensures
        r.tool_call@ == tool_call@,
        (r.result@, r.is_error) == after_applied(result@, is_error, after),
{
    let mut result = result;
    let mut is_error = is_error;
    match after {
        Some(a) => {
            match a.content {
                Some(c) => {
                    result.content = c;
                },
                None => {},
            }
            match a.details {
                Some(d) => {
                    result.details = d;
                },
                None => {},
            }
            match a.is_error {
                Some(e) => {
                    is_error = e;
                },
                None => {},
            }
            match a.terminate {
                Some(t) => {
                    result.terminate = t;
                },
                None => {},
            }
        },
        None => {},
    }
    FinalizedToolCallOutcome { tool_call, result, is_error }
}

/// A batch stops the agent when it is not empty and every result asks to stop.
pub open spec fn batch_terminates(terminates: Seq<bool>) -> bool {
    terminates.len() > 0 && forall|k: int| 0 <= k < terminates.len() ==> #[trigger] terminates[k]
}

/// Whether each finalized call asked the agent to stop.
pub open spec fn terminate_flags(fs: Seq<FinalizedToolCallOutcome>) -> Seq<bool> {
    fs.map_values(|f: FinalizedToolCallOutcome| f.result.terminate)
}

/// Whether a batch of finalized calls stops the agent.
pub fn should_terminate_tool_batch(finalized: &Vec<FinalizedToolCallOutcome>) -> (b: bool)
    ensures
        b == batch_terminates(terminate_flags(finalized@)),
        b ==> finalized.len() > 0,
        b ==> forall|k: int| 0 <= k < finalized.len() ==> #[trigger] finalized@[k].result.terminate,
        !b ==> finalized.len() == 0 || exists|k: int|
            0 <= k < finalized.len() && !(#[trigger] finalized@[k].result.terminate),
{
    if finalized.len() == 0 {
        return false;
    }
    let mut k: usize = 0;
    while k < finalized.len()
        invariant
            k <= finalized.len(),
            forall|j: int| 0 <= j < k ==> #[trigger] terminate_flags(finalized@)[j],
        decreases finalized.len() - k,
    {
        if !finalized[k].result.terminate {
            assert(!terminate_flags(finalized@)[k as int]);
            return false;
        }
        k = k + 1;
    }
    assert forall|j: int| 0 <= j < finalized.len() implies #[trigger] finalized@[j].result.terminate by {
        assert(terminate_flags(finalized@)[j]);
    }
    true
}

/// Whether `m` is the tool result message of a call with this result:
/// it carries the call's id and name, the result's content and the error
/// flag (its timestamp is the time it was made).
pub open spec fn is_result_message(
    m: AgentMessageView,
    call: ContentBlockView,
    result: AgentToolResultView,
    is_error: bool,
) -> bool {
    &&& m is Llm
    &&& m->Llm_0 is ToolResult
    &&& m->Llm_0->ToolResult_tool_call_id == call->ToolCall_id
    &&& m->Llm_0->ToolResult_tool_name == call->ToolCall_name
    &&& m->Llm_0->ToolResult_content == result.content
    &&& m->Llm_0->ToolResult_is_error == is_error
}

/// A tool call's result message answers it.
pub proof fn lemma_result_answers_call(
    m: AgentMessageView,
    call: ContentBlockView,
    result: AgentToolResultView,
    is_error: bool,
)
    requires
        is_result_message(m, call, result, is_error),
        call is ToolCall,
    ensures
        answers_call(m, call),
{
}

/// The tool result message of a finalized call, stamped with the current time.
pub fn create_tool_result_message(finalized: &FinalizedToolCallOutcome) -> (m: AgentMessage)
    requires
        finalized.tool_call@ is ToolCall,
    ensures
        is_result_message(m@, finalized.tool_call@, finalized.result@, finalized.is_error),
{
    match &finalized.tool_call {
        ContentBlock::ToolCall { id, name, .. } => {
            let t = now_ms();
            let m = AgentMessage::ToolResult {
                tool_call_id: id.clone(),
                tool_name: name.clone(),
                content: clone_blocks(&finalized.result.content),
                is_error: finalized.is_error,
                timestamp: t,
            };
            m
        },
        _ => {
            proof {
                assert(false);
            }
            AgentMessage::ToolResult {
                tool_call_id: String::new(),
                tool_name: String::new(),
                content: Vec::new(),
                is_error: true,
                timestamp: 0,
            }
        },
    }
}

/// A batch stops the agent exactly when it has a result and every result asks
/// to stop: one result that does not ask to stop, wherever it stands, keeps
/// the agent going, and so does an empty batch.
pub proof fn law_batch_stops_only_when_all_ask(terminates: Seq<bool>, k: int)
    ensures
        0 <= k < terminates.len() && !terminates[k] ==> !batch_terminates(terminates),
        terminates.len() == 0 ==> !batch_terminates(terminates),
        terminates.len() > 0 && (forall|j: int| 0 <= j < terminates.len() ==> #[trigger] terminates[j])
            ==> batch_terminates(terminates),
{
}

} // verus!
