//! Model providers: their configuration, the local stub, and the request and
//! stream formats of the remote chat API.
pub mod local;
pub mod provider;
pub mod remote;

pub use provider::{ProviderConfig, ProviderType};
