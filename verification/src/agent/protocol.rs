//! The order in which an agent run reports its events.
//!
//! A run opens with `AgentStart` and closes with `AgentEnd`. In between,
//! turns open with `TurnStart` and close with `TurnEnd` and never nest;
//! messages open with `MessageStart` and close with `MessageEnd` inside a
//! turn, never nest, and only an open message is updated; tool executions
//! are reported inside a turn, between messages.
use vstd::prelude::*;

use crate::agent::types::AgentEventView;

verus! {

/// Where a run stands in its event protocol.
pub enum ProtocolState {
    /// Nothing reported yet.
    Idle,
    /// Between `AgentStart` and `AgentEnd`.
    Running { turn_open: bool, message_open: bool },
    /// After `AgentEnd`.
    Ended,
    /// An event came out of order.
    Broken,
}

/// The protocol state after one more event.
pub open spec fn protocol_step(s: ProtocolState, e: AgentEventView) -> ProtocolState {
    match (s, e) {
        (ProtocolState::Idle, AgentEventView::AgentStart) => ProtocolState::Running {
            turn_open: false,
            message_open: false,
        },
        (
            ProtocolState::Running { turn_open: false, message_open: false },
            AgentEventView::TurnStart,
        ) => ProtocolState::Running { turn_open: true, message_open: false },
        (
            ProtocolState::Running { turn_open: true, message_open: false },
            AgentEventView::TurnEnd { .. },
        ) => ProtocolState::Running { turn_open: false, message_open: false },
        (
            ProtocolState::Running { turn_open: true, message_open: false },
            AgentEventView::MessageStart { .. },
        ) => ProtocolState::Running { turn_open: true, message_open: true },
        (
            ProtocolState::Running { turn_open: true, message_open: true },
            AgentEventView::MessageUpdate { .. },
        ) => ProtocolState::Running { turn_open: true, message_open: true },
        (
            ProtocolState::Running { turn_open: true, message_open: true },
            AgentEventView::MessageEnd { .. },
        ) => ProtocolState::Running { turn_open: true, message_open: false },
        (
            ProtocolState::Running { turn_open: true, message_open: false },
            AgentEventView::ToolExecutionStart { .. },
        ) => ProtocolState::Running { turn_open: true, message_open: false },
        (
            ProtocolState::Running { turn_open: true, message_open: false },
            AgentEventView::ToolExecutionUpdate { .. },
        ) => ProtocolState::Running { turn_open: true, message_open: false },
        (
            ProtocolState::Running { turn_open: true, message_open: false },
            AgentEventView::ToolExecutionEnd { .. },
        ) => ProtocolState::Running { turn_open: true, message_open: false },
        (
            ProtocolState::Running { turn_open: false, message_open: false },
            AgentEventView::AgentEnd { .. },
        ) => ProtocolState::Ended,
        _ => ProtocolState::Broken,
    }
}

/// The protocol state after a sequence of events.
pub open spec fn protocol_run(s: ProtocolState, es: Seq<AgentEventView>) -> ProtocolState
    decreases es.len(),
{
    if es.len() == 0 {
        s
    } else {
        protocol_step(protocol_run(s, es.drop_last()), es.last())
    }
}

/// Running events in two parts runs them all.
pub proof fn lemma_protocol_run_concat(
    s: ProtocolState,
    a: Seq<AgentEventView>,
    b: Seq<AgentEventView>,
)
    ensures
        protocol_run(s, a + b) == protocol_run(protocol_run(s, a), b),
    decreases b.len(),
{
    if b.len() == 0 {
        assert(a + b =~= a);
    } else {
        lemma_protocol_run_concat(s, a, b.drop_last());
        assert((a + b).drop_last() =~= a + b.drop_last());
        assert((a + b).last() == b.last());
    }
}

/// Running two events.
pub proof fn lemma_protocol_run_two(s: ProtocolState, a: AgentEventView, b: AgentEventView)
    ensures
        protocol_run(s, seq![a, b]) == protocol_step(protocol_step(s, a), b),
{
    assert(seq![a, b].drop_last() =~= seq![a]);
    lemma_protocol_run_one(s, a);
    assert(protocol_run(s, seq![a, b]) == protocol_step(protocol_run(s, seq![a]), b));
}

/// Running one event.
pub proof fn lemma_protocol_run_one(s: ProtocolState, a: AgentEventView)
    ensures
        protocol_run(s, seq![a]) == protocol_step(s, a),
{
    assert(seq![a].drop_last() =~= Seq::<AgentEventView>::empty());
    assert(protocol_run(s, Seq::<AgentEventView>::empty()) == s);
    assert(protocol_run(s, seq![a]) == protocol_step(
        protocol_run(s, Seq::<AgentEventView>::empty()),
        a,
    ));
}

} // verus!
