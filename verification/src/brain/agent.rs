//! What a specialist agent reports after one step.
use vstd::prelude::*;
use crate::tools::parser::{tool_views, ToolCall};

verus! {

/// Status of a specialist agent after one step.
#[derive(Debug, Clone, Copy, PartialEq, Eq, Structural)]
pub enum AgentState {
    Active,
    AwaitingApproval,
    Completed,
    Failed,
}

/// The result of one step of an agent: its text, its status and the tool
/// calls that it asks to run.
pub struct AgentOutput {
    pub content: String,
    pub status: AgentState,
    pub requested_tools: Vec<ToolCall>,
}

impl AgentOutput {
    /// The views of the requested tool calls.
    pub open spec fn tools_view(&self) -> Seq<(Seq<char>, Seq<char>)> {
        tool_views(self.requested_tools@)
    }
}

} // verus!
