//! What is known of the agent in a terminal.
use vstd::prelude::*;

verus! {

/// What an agent is seen to be doing.
#[derive(Debug, Clone, Copy, PartialEq, Eq, Structural)]
pub enum AgentState {
    Idle,
    Working,
    Blocked,
    Unknown,
}

/// The agents that the API treats by name. Any other agent goes by its number in the host's table.
#[derive(Debug, Clone, Copy, PartialEq, Eq, Structural)]
pub enum Agent {
    Pi,
    Codex,
    OpenCode,
    GithubCopilot,
    Other(u32),
}

} // verus!
