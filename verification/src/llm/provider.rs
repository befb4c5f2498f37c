//! What selects and configures a model provider.
use vstd::prelude::*;
use crate::text::string_from;

verus! {

/// Where a model runs.
#[derive(Debug, Clone, Copy, PartialEq, Eq, Structural)]
pub enum ProviderType {
    Local,
    Remote,
}

/// The configuration of a provider session.
pub struct ProviderConfig {
    pub provider_type: ProviderType,
    pub model_name: String,
    pub endpoint: Option<String>,
    pub api_key: Option<String>,
}

/// The configuration of the default provider: remote, the given model or
/// `default-model`, the standard endpoint and no key.
pub fn remote_config(model: Option<String>) -> (c: ProviderConfig)
    ensures
        c.provider_type == ProviderType::Remote,
        c.model_name@ == (match model {
            Some(m) => m@,
            None => "default-model"@,
        }),
        c.endpoint is None,
        c.api_key is None,
{
    let model_name = match model {
        Some(m) => m,
        None => string_from("default-model"),
    };
    ProviderConfig { provider_type: ProviderType::Remote, model_name, endpoint: None, api_key: None }
}

} // verus!
