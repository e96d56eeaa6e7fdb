//! A verified core for a command-line chat assistant: it builds the one
//! provider request an invocation issues, decodes the provider's streamed or
//! single response into reply text, and keeps the persisted settings and
//! presets coherent. The surrounding binary does the I/O; everything here is
//! plain computation with contracts.

pub mod ai;
pub mod command;
pub mod error;
pub mod jsonbody;
pub mod messages;
pub mod question;
pub mod render;
pub mod settings;
pub mod sse;
pub mod text;

pub use ai::{deepseek, openai, qwen, RequestPlan};
pub use command::{
    AIModel, AIProvider, AskArgsParser, AskCommand, ConfigCommand, ConfigModelArgs,
    ConfigProviderArgs, ConfigSubcommand, ConfigTimeoutArgs, PresetCommand, PresetRemoveArgs,
    PresetSetArgs, PresetSubcommand,
};
pub use error::{ConfigError, ProviderError};
pub use settings::{validate_ai_settings, Presets, Settings};
pub use sse::{FeedOutcome, SseDecoder};
