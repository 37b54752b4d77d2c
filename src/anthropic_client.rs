//! The hosted model service's client: its settings.

use vstd::prelude::*;

verus! {

pub const LLM_PROTOCOL: &'static str = "https";

pub const LLM_HOST: &'static str = "api.anthropic.com";

pub const LLM_ENDPOINT: &'static str = "/v1/messages";

/// A client of the hosted service.
#[derive(Debug)]
pub struct AnthropicClient {
    pub model: String,
    pub system_prompt: String,
    pub max_tokens: usize,
}

impl AnthropicClient {
    pub fn new(model: String, system_prompt: String, max_tokens: usize) -> (r: Self)
        ensures
            r.model@ == model@,
            r.system_prompt@ == system_prompt@,
            r.max_tokens == max_tokens,
    {
        AnthropicClient { model, system_prompt, max_tokens }
    }

    pub fn update_system_prompt(&mut self, system_prompt: String)
        ensures
            final(self).system_prompt@ == system_prompt@,
            final(self).model == old(self).model,
            final(self).max_tokens == old(self).max_tokens,
    {
        self.system_prompt = system_prompt;
    }

    pub fn system_prompt(&self) -> (r: String)
        ensures
            r@ == self.system_prompt@,
    {
        self.system_prompt.clone()
    }

    /// The service does not report a context size.
    pub fn model_context_size(&self) -> (r: Option<usize>)
        ensures
            r is None,
    {
        None
    }

    /// The messages endpoint of the service.
    pub fn api_url() -> (r: String)
        ensures
            r@ == LLM_PROTOCOL@ + "://"@ + LLM_HOST@ + LLM_ENDPOINT@,
    {
        String::from_str(LLM_PROTOCOL).concat("://").concat(LLM_HOST).concat(LLM_ENDPOINT)
    }
}

} // verus!
