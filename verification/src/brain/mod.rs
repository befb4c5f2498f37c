//! The agents' side: folding of source context and the agents' decisions.
pub mod agent;
pub mod context;
pub mod coordinator;
pub mod dream;
pub mod fold;
pub mod memory;
pub mod specialists;

pub use agent::{AgentOutput, AgentState};
