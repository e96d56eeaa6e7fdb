//! Error taxonomy: configuration problems found before any network call, and
//! terminal failures of a single provider request. None of them is retried.

use vstd::prelude::*;
use crate::command::AIProvider;

verus! {

/// A problem with the resolved configuration, detected before any request is
/// issued.
pub enum ConfigError {
    /// No provider is configured.
    ProviderNotSet,
    /// No model is configured.
    ModelNotSet,
    /// The configured provider has no usable API key.
    ApiKeyNotSet(AIProvider),
    /// The configured model does not belong to the configured provider.
    ModelNotSupported(AIProvider),
}

/// A terminal failure of the single request of one invocation.
pub enum ProviderError {
    /// The provider answered with a non-success status; the body is kept for
    /// the caller to show.
    HttpStatus(u16, String),
    /// A transport-level failure (connection, TLS, timeout), described by the
    /// carrier's message.
    Transport(String),
    /// A success response whose body carries no reply text.
    EmptyReply,
}

/// The human-readable description of each configuration error.
pub open spec fn config_error_text(e: ConfigError) -> Seq<char> {
    match e {
        ConfigError::ProviderNotSet => "AI provider is not set"@,
        ConfigError::ModelNotSet => "AI model is not set"@,
        ConfigError::ApiKeyNotSet(p) => match p {
            AIProvider::DeepSeek => "DeepSeek API key is not set"@,
            AIProvider::Grok => "Grok API key is not set"@,
            AIProvider::Qwen => "Qwen API key is not set"@,
        },
        ConfigError::ModelNotSupported(p) => match p {
            AIProvider::DeepSeek => "DeepSeek provider only supports deepseek-chat model"@,
            AIProvider::Grok => "Grok provider only supports grok-3 model"@,
            AIProvider::Qwen => "Qwen provider only supports qwen-plus and qwen-flash models"@,
        },
    }
}

impl ConfigError {
    /// The description that a caller can show for this error.
    pub fn message(&self) -> (r: &'static str)
        ensures
            r@ == config_error_text(*self),
    {
        match self {
            ConfigError::ProviderNotSet => "AI provider is not set",
            ConfigError::ModelNotSet => "AI model is not set",
            ConfigError::ApiKeyNotSet(p) => match p {
                AIProvider::DeepSeek => "DeepSeek API key is not set",
                AIProvider::Grok => "Grok API key is not set",
                AIProvider::Qwen => "Qwen API key is not set",
            },
            ConfigError::ModelNotSupported(p) => match p {
                AIProvider::DeepSeek => "DeepSeek provider only supports deepseek-chat model",
                AIProvider::Grok => "Grok provider only supports grok-3 model",
                AIProvider::Qwen => "Qwen provider only supports qwen-plus and qwen-flash models",
            },
        }
    }
}

} // verus!
