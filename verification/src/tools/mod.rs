//! Tool calls: extraction from model output and the registry of tools.
pub mod parser;
pub mod registry;
