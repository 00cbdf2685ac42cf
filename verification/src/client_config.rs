//! Client configuration values: plain data the surrounding HTTP client is
//! driven by. Timeouts are carried as whole seconds.

use vstd::prelude::*;

use crate::common::Provider;

verus! {

/// Configuration for the chat client.
#[derive(Debug, Clone)]
pub struct ClientConfig {
    pub provider: Provider,
    pub base_url: String,
    pub api_key: String,
    pub timeout_secs: u64,
    pub model: String,
    pub max_tokens: u32,
}

impl ClientConfig {
    /// A configuration for the structured-format API.
    pub fn anthropic(api_key: String, model: String) -> (r: Self)
        ensures
            r.provider == Provider::Anthropic,
            r.base_url@ == "https://api.anthropic.com"@,
            r.api_key@ == api_key@,
            r.timeout_secs == 180,
            r.model@ == model@,
            r.max_tokens == 16384,
    {
        Self {
            provider: Provider::Anthropic,
            base_url: String::from_str("https://api.anthropic.com"),
            api_key,
            timeout_secs: 180,
            model,
            max_tokens: 16384,
        }
    }

    /// A configuration for a flat-format compatible API.
    pub fn openai_compatible(base_url: String, api_key: String, model: String) -> (r: Self)
        ensures
            r.provider == Provider::OpenAiCompatible,
            r.base_url@ == base_url@,
            r.api_key@ == api_key@,
            r.timeout_secs == 60,
            r.model@ == model@,
            r.max_tokens == 16384,
    {
        Self {
            provider: Provider::OpenAiCompatible,
            base_url,
            api_key,
            timeout_secs: 60,
            model,
            max_tokens: 16384,
        }
    }

    pub fn timeout(self, timeout_secs: u64) -> (r: Self)
        ensures
            r.timeout_secs == timeout_secs,
            r.provider == self.provider,
            r.base_url@ == self.base_url@,
            r.api_key@ == self.api_key@,
            r.model@ == self.model@,
            r.max_tokens == self.max_tokens,
    {
        Self { timeout_secs, ..self }
    }

    pub fn max_tokens(self, max_tokens: u32) -> (r: Self)
        ensures
            r.max_tokens == max_tokens,
            r.provider == self.provider,
            r.base_url@ == self.base_url@,
            r.api_key@ == self.api_key@,
            r.model@ == self.model@,
            r.timeout_secs == self.timeout_secs,
    {
        Self { max_tokens, ..self }
    }

    pub fn base_url(self, base_url: String) -> (r: Self)
        ensures
            r.base_url@ == base_url@,
            r.provider == self.provider,
            r.api_key@ == self.api_key@,
            r.model@ == self.model@,
            r.timeout_secs == self.timeout_secs,
            r.max_tokens == self.max_tokens,
    {
        Self { base_url, ..self }
    }
}

/// Configuration for the embeddings client.
#[derive(Debug, Clone)]
pub struct EmbeddingsConfig {
    pub base_url: String,
    pub api_key: String,
    pub model: String,
    pub timeout_secs: u64,
}

impl EmbeddingsConfig {
    /// A configuration for any flat-format compatible embeddings API.
    pub fn openai_compatible(base_url: String, api_key: String, model: String) -> (r: Self)
        ensures
            r.base_url@ == base_url@,
            r.api_key@ == api_key@,
            r.model@ == model@,
            r.timeout_secs == 120,
    {
        Self { base_url, api_key, model, timeout_secs: 120 }
    }

    /// A configuration for the OpenRouter embeddings endpoint.
    pub fn openrouter(api_key: String, model: String) -> (r: Self)
        ensures
            r.base_url@ == "https://openrouter.ai/api/v1"@,
            r.api_key@ == api_key@,
            r.model@ == model@,
            r.timeout_secs == 120,
    {
        Self::openai_compatible(String::from_str("https://openrouter.ai/api/v1"), api_key, model)
    }

    pub fn timeout(self, timeout_secs: u64) -> (r: Self)
        ensures
            r.timeout_secs == timeout_secs,
            r.base_url@ == self.base_url@,
            r.api_key@ == self.api_key@,
            r.model@ == self.model@,
    {
        Self { timeout_secs, ..self }
    }

    pub fn base_url(self, base_url: String) -> (r: Self)
        ensures
            r.base_url@ == base_url@,
            r.api_key@ == self.api_key@,
            r.model@ == self.model@,
            r.timeout_secs == self.timeout_secs,
    {
        Self { base_url, ..self }
    }
}

} // verus!
