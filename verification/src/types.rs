//! Requests, responses, models and usage accounting.
//!
//! Fractional quantities (costs, sampling parameters) are held as the IEEE-754
//! bit patterns of the original `f64`/`f32` values: the library only carries
//! them, and the pattern 0 is the number 0.0.
use vstd::prelude::*;

use crate::json::clone_json;
use crate::message::{Message, clone_string_opt};

verus! {

/// Cost of a request in dollars, each field the bit pattern of an `f64`.
#[derive(Debug, Clone, Copy, PartialEq, Eq, Structural)]
pub struct Cost {
    pub input: u64,
    pub output: u64,
    pub cache_read: u64,
    pub cache_write: u64,
    pub total: u64,
}

impl Default for Cost {
    fn default() -> (c: Self)
        ensures
            c == zero_cost(),
    {
        Cost { input: 0, output: 0, cache_read: 0, cache_write: 0, total: 0 }
    }
}

/// No cost.
pub open spec fn zero_cost() -> Cost {
    Cost { input: 0, output: 0, cache_read: 0, cache_write: 0, total: 0 }
}

/// Token accounting of a request.
#[derive(Debug, Clone, Copy, PartialEq, Eq, Structural)]
pub struct Usage {
    pub input: u64,
    pub output: u64,
    pub cache_read: u64,
    pub cache_write: u64,
    pub total_tokens: u64,
    pub cost: Cost,
}

/// No usage.
pub open spec fn zero_usage() -> Usage {
    Usage { input: 0, output: 0, cache_read: 0, cache_write: 0, total_tokens: 0, cost: zero_cost() }
}

impl Default for Usage {
    fn default() -> (u: Self)
        ensures
            u == zero_usage(),
    {
        Usage {
            input: 0,
            output: 0,
            cache_read: 0,
            cache_write: 0,
            total_tokens: 0,
            cost: Cost::default(),
        }
    }
}

/// A tool offered to the model.
#[derive(Debug)]
pub struct Tool {
    pub name: String,
    pub description: String,
    pub parameters: serde_json::Value,
}

/// The value of a [`Tool`].
pub struct ToolView {
    pub name: Seq<char>,
    pub description: Seq<char>,
    pub parameters: serde_json::Value,
}

impl DeepView for Tool {
    type V = ToolView;

    open spec fn deep_view(&self) -> ToolView {
        ToolView {
            name: self.name@,
            description: self.description@,
            parameters: self.parameters,
        }
    }
}

impl View for Tool {
    type V = ToolView;

    open spec fn view(&self) -> ToolView {
        self.deep_view()
    }
}

impl Clone for Tool {
    fn clone(&self) -> (r: Self)
        ensures
            r@ == self@,
    {
        Tool {
            name: self.name.clone(),
            description: self.description.clone(),
            parameters: clone_json(&self.parameters),
        }
    }
}

/// What a model is asked with: system prompt, conversation and tools.
#[derive(Debug)]
pub struct Context {
    pub system_prompt: Option<String>,
    pub messages: Vec<Message>,
    pub tools: Option<Vec<Tool>>,
}

/// The result of a one-shot generation.
#[derive(Debug)]
pub struct GenerateResponse {
    pub model: String,
    pub content: String,
    pub usage: Option<Usage>,
    pub finish_reason: Option<String>,
}

/// The value of a [`GenerateResponse`].
pub struct GenerateResponseView {
    pub model: Seq<char>,
    pub content: Seq<char>,
    pub usage: Option<Usage>,
    pub finish_reason: Option<Seq<char>>,
}

impl DeepView for GenerateResponse {
    type V = GenerateResponseView;

    open spec fn deep_view(&self) -> GenerateResponseView {
        GenerateResponseView {
            model: self.model@,
            content: self.content@,
            usage: self.usage,
            finish_reason: self.finish_reason.deep_view(),
        }
    }
}

impl View for GenerateResponse {
    type V = GenerateResponseView;

    open spec fn view(&self) -> GenerateResponseView {
        self.deep_view()
    }
}

/// A model descriptor. `api` selects the provider code path; `provider`
/// tells apart providers that share an api.
#[derive(Debug)]
pub struct Model {
    pub id: String,
    pub name: String,
    pub api: String,
    pub provider: String,
    pub base_url: String,
    pub reasoning: bool,
    pub input: Vec<String>,
    pub cost: Cost,
    pub context_window: u64,
    pub max_tokens: u64,
    pub headers: Option<std::collections::HashMap<String, String>>,
}

impl Default for Model {
    fn default() -> (m: Self)
        ensures
            m.id@ == Seq::<char>::empty(),
            m.name@ == Seq::<char>::empty(),
            m.api@ == Seq::<char>::empty(),
            m.provider@ == Seq::<char>::empty(),
            m.base_url@ == Seq::<char>::empty(),
            !m.reasoning,
            m.input.deep_view() == seq!["text"@],
            m.cost == zero_cost(),
            m.context_window == 0,
            m.max_tokens == 0,
            m.headers is None,
    {
        let input = vec!["text".to_owned()];
        proof {
            assert(input.deep_view() =~= seq!["text"@]);
        }
        Model {
            id: String::new(),
            name: String::new(),
            api: String::new(),
            provider: String::new(),
            base_url: String::new(),
            reasoning: false,
            input,
            cost: Cost::default(),
            context_window: 0,
            max_tokens: 0,
            headers: None,
        }
    }
}

/// Options handed to a provider's stream; sampling parameters are `f32` bit patterns.
#[derive(Debug)]
pub struct StreamOptions {
    pub api_key: Option<String>,
    pub temperature: Option<u32>,
    pub max_tokens: Option<u32>,
    pub top_p: Option<u32>,
    pub frequency_penalty: Option<u32>,
    pub presence_penalty: Option<u32>,
    pub stop: Option<Vec<String>>,
}

impl Default for StreamOptions {
    fn default() -> (o: Self)
        ensures
            o.api_key is None,
            o.temperature is None,
            o.max_tokens is None,
            o.top_p is None,
            o.frequency_penalty is None,
            o.presence_penalty is None,
            o.stop is None,
    {
        StreamOptions {
            api_key: None,
            temperature: None,
            max_tokens: None,
            top_p: None,
            frequency_penalty: None,
            presence_penalty: None,
            stop: None,
        }
    }
}

/// Options of a one-shot generation; sampling parameters are `f32` bit patterns.
#[derive(Debug)]
pub struct GenerateOptions {
    pub temperature: Option<u32>,
    pub max_tokens: Option<u32>,
    pub top_p: Option<u32>,
    pub frequency_penalty: Option<u32>,
    pub presence_penalty: Option<u32>,
    pub stop: Option<Vec<String>>,
}

impl Default for GenerateOptions {
    fn default() -> (o: Self)
        ensures
            o.temperature is None,
            o.max_tokens is None,
            o.top_p is None,
            o.frequency_penalty is None,
            o.presence_penalty is None,
            o.stop is None,
    {
        GenerateOptions {
            temperature: None,
            max_tokens: None,
            top_p: None,
            frequency_penalty: None,
            presence_penalty: None,
            stop: None,
        }
    }
}

/// A one-shot generation request.
#[derive(Debug)]
pub struct GenerateRequest {
    pub model: String,
    pub messages: Vec<Message>,
    pub options: GenerateOptions,
}

impl GenerateRequest {
    /// A request for a model and a conversation, with no options set.
    pub fn new(model: &str, messages: Vec<Message>) -> (r: Self)
        ensures
            r.model@ == model@,
            r.messages.deep_view() == messages.deep_view(),
            r.options.temperature is None,
            r.options.max_tokens is None,
            r.options.top_p is None,
            r.options.frequency_penalty is None,
            r.options.presence_penalty is None,
            r.options.stop is None,
    {
        GenerateRequest { model: model.to_owned(), messages, options: GenerateOptions::default() }
    }

    /// Sets the sampling temperature, given as the bit pattern of an `f32`.
    pub fn temperature(self, temperature: u32) -> (r: Self)
        ensures
            r.model == self.model,
            r.messages == self.messages,
            r.options.temperature == Some(temperature),
            r.options.max_tokens == self.options.max_tokens,
            r.options.top_p == self.options.top_p,
            r.options.frequency_penalty == self.options.frequency_penalty,
            r.options.presence_penalty == self.options.presence_penalty,
            r.options.stop == self.options.stop,
    {
        let mut r = self;
        r.options.temperature = Some(temperature);
        r
    }

    /// Sets the maximum number of tokens to generate.
    pub fn max_tokens(self, max_tokens: u32) -> (r: Self)
        ensures
            r.model == self.model,
            r.messages == self.messages,
            r.options.temperature == self.options.temperature,
            r.options.max_tokens == Some(max_tokens),
            r.options.top_p == self.options.top_p,
            r.options.frequency_penalty == self.options.frequency_penalty,
            r.options.presence_penalty == self.options.presence_penalty,
            r.options.stop == self.options.stop,
    {
        let mut r = self;
        r.options.max_tokens = Some(max_tokens);
        r
    }

    /// Sets nucleus sampling, given as the bit pattern of an `f32`.
    pub fn top_p(self, top_p: u32) -> (r: Self)
        ensures
            r.model == self.model,
            r.messages == self.messages,
            r.options.temperature == self.options.temperature,
            r.options.max_tokens == self.options.max_tokens,
            r.options.top_p == Some(top_p),
            r.options.frequency_penalty == self.options.frequency_penalty,
            r.options.presence_penalty == self.options.presence_penalty,
            r.options.stop == self.options.stop,
    {
        let mut r = self;
        r.options.top_p = Some(top_p);
        r
    }
}

} // verus!
