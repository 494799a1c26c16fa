pub mod agent_loop;
pub mod protocol;
pub mod tool_calls;
pub mod types;
