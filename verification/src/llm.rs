//! Settings for, and answers from, a language model.

use vstd::prelude::*;
use crate::middleware::ToolDefinition;
use crate::state::Message;

verus! {

/// A sampling temperature.
///
/// The runtime only hands it on to the model, so it is kept as the bit
/// pattern of the single-precision number it stands for.
#[derive(Debug, Clone, Copy, PartialEq, Eq, Structural, Hash)]
pub struct Temperature {
    pub bits: u32,
}

impl Temperature {
    pub fn from_bits(bits: u32) -> (temperature: Self)
        ensures
            temperature.bits == bits,
    {
        Temperature { bits }
    }

    pub fn to_bits(&self) -> (bits: u32)
        ensures
            bits == self.bits,
    {
        self.bits
    }
}

/// Settings for one completion request.
#[derive(Debug, PartialEq)]
pub struct LLMConfig {
    pub model: String,
    pub temperature: Option<Temperature>,
}

impl LLMConfig {
    pub fn new(model: &str) -> (config: Self)
        ensures
            config.model@ == model@,
            config.temperature is None,
    {
        LLMConfig { model: model.to_owned(), temperature: None }
    }

    pub fn with_temperature(self, temperature: Temperature) -> (config: Self)
        ensures
            config.model == self.model,
            config.temperature == Some(temperature),
    {
        LLMConfig { model: self.model, temperature: Some(temperature) }
    }
}

/// The answer of the model to one completion request.
#[derive(Debug, PartialEq)]
pub struct LLMResponse {
    pub message: Message,
}

impl LLMResponse {
    pub fn new(message: Message) -> (response: Self)
        ensures
            response.message == message,
    {
        LLMResponse { message }
    }
}

/// A language model that completes conversations without waiting.
pub trait LLMProvider {
    /// Asks the model for the next message of a conversation, given the
    /// tools that it may call. Gives the answer, or the text of what went
    /// wrong.
    fn complete(
        &self,
        messages: &[Message],
        tools: &[ToolDefinition],
        config: Option<&LLMConfig>,
    ) -> Result<LLMResponse, String>;
}

} // verus!
