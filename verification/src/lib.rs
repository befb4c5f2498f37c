//! A verified core for a terminal coding agent: streaming extraction of tool
//! calls from model output, syntax-aware folding of source files, the agents'
//! decision rules, the tool registry and the session state.
pub mod json;
pub mod text;
pub mod tools;
pub mod syntax;
pub mod words;
pub mod cache;
pub mod brain;
pub mod sandbox;
pub mod utf8;
pub mod cli;
pub mod config;
pub mod llm;
pub mod state;
pub mod tui;
