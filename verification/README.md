# pi_agent

An LLM client and agent runtime whose logic is verified with Verus.

## Layout

- `src/` — the verified library.
  - `message.rs`, `types.rs`, `error.rs` — messages, content blocks, usage,
    models, requests and errors, each with a mathematical view.
  - `stream.rs` — the events in which a provider streams an assistant
    message, and what consuming a stream yields.
  - `provider.rs` — how `generate` answers from a stream of events.
  - `providers/` — the mock and faux test providers, and the request
    building and stream decoding of the OpenAI-compatible provider.
  - `api_registry.rs` — a registry of providers by api slug and source.
  - `agent/` — the agent loop as a state machine (`agent_loop.rs`), the
    order its events follow (`protocol.rs`), tool call handling
    (`tool_calls.rs`) and the agent's types.
  - `json.rs` — the JSON values carried in tool calls and results.
- `tests/` — tests of the library, run against the compiled crate.
- `app/` — the asynchronous runtime around the library (not verified):
  event channels, the provider trait and its implementations including the
  HTTP client, the process-wide registry, and the drivers that perform the
  work the agent loop asks for.

## The agent loop

`AgentLoop` takes the decisions of a run. Each step consumes the outcome of
some outside work (the steering or follow-up queue, the next event of an
assistant stream, a prepared or executed tool call) and returns the events
to report and the next `LoopRequest`. The driver in `app/agent.rs` performs
the requests until `Finished`. In a concurrent batch every tool call is
preflighted first, each reporting its start; the calls that run are handed
out together (`ExecuteTools`), and their results are taken back and finished
in the order of the assistant's calls. The library proves that every `TurnEnd` answers its assistant message's
tool calls in order and that `AgentEnd` carries all of the run's messages.
As long as every assistant stream of the run was well formed (it opened
its message at most once and delivered a message), it also proves that the
reported events follow the run/turn/message protocol and that the transcript
is the initial context followed by the run's messages.

`AgentLoop::single_response` serves for streaming one response without
running its tool calls: its tools all run concurrently, so the response's
calls are only preflighted before the loop asks for something other than
the stream.
