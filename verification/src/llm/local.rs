//! The local provider, which answers with a fixed reply.
use vstd::prelude::*;
use crate::llm::provider::ProviderConfig;
use crate::text::string_from;
use crate::words::texts;

verus! {

/// A provider that runs a model on this machine.
pub struct CandleProvider {
    config: ProviderConfig,
}

impl CandleProvider {
    pub fn new(config: ProviderConfig) -> (p: Self)
        ensures
            p.configuration() == config,
    {
        CandleProvider { config }
    }

    /// The session's configuration.
    pub closed spec fn configuration(&self) -> ProviderConfig {
        self.config
    }

    /// Return the static config for this provider session
    pub fn config(&self) -> (c: &ProviderConfig)
        ensures
            *c == self.configuration(),
    {
        &self.config
    }

    /// Update the configuration at runtime (e.g. switching models or endpoint)
    pub fn update_config(&mut self, config: ProviderConfig)
        ensures
            final(self).configuration() == config,
    {
        self.config = config;
    }

    /// The chunks of the local reply, in order.
    pub fn reply_chunks(&self) -> (r: Vec<String>)
        ensures
            texts(r@) == seq!["Generating..."@, " (stub local response)"@],
    {
        let mut r: Vec<String> = Vec::new();
        r.push(string_from("Generating..."));
        r.push(string_from(" (stub local response)"));
        assert(texts(r@) =~= seq!["Generating..."@, " (stub local response)"@]);
        r
    }
}

} // verus!
