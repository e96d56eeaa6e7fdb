//! The command surface: providers, models, and the shapes of the `config` and
//! `preset` subcommands. These are plain values; the binary that parses the
//! command line converts its own argument types into them.

use vstd::prelude::*;

verus! {

/// The hosted chat-completion services a request can go to.
#[derive(Clone, Copy, PartialEq, Eq, Structural)]
pub enum AIProvider {
    DeepSeek,
    Grok,
    Qwen,
}

/// The models a request can name.
#[derive(Clone, Copy, PartialEq, Eq, Structural)]
pub enum AIModel {
    DeepSeekChat,
    Grok3,
    QwenPlus,
    QwenFlash,
}

/// The wire name of each model, as the provider expects it.
pub open spec fn model_name_text(m: AIModel) -> Seq<char> {
    match m {
        AIModel::DeepSeekChat => "deepseek-chat"@,
        AIModel::Grok3 => "grok-3"@,
        AIModel::QwenPlus => "qwen-plus"@,
        AIModel::QwenFlash => "qwen-flash"@,
    }
}

/// The configured name of each provider.
pub open spec fn provider_name_text(p: AIProvider) -> Seq<char> {
    match p {
        AIProvider::DeepSeek => "deepseek"@,
        AIProvider::Grok => "grok"@,
        AIProvider::Qwen => "qwen"@,
    }
}

impl AIModel {
    /// The wire name of the model.
    pub fn name(&self) -> (r: &'static str)
        ensures
            r@ == model_name_text(*self),
    {
        match self {
            AIModel::DeepSeekChat => "deepseek-chat",
            AIModel::Grok3 => "grok-3",
            AIModel::QwenPlus => "qwen-plus",
            AIModel::QwenFlash => "qwen-flash",
        }
    }
}

impl AIProvider {
    /// The configured name of the provider.
    pub fn name(&self) -> (r: &'static str)
        ensures
            r@ == provider_name_text(*self),
    {
        match self {
            AIProvider::DeepSeek => "deepseek",
            AIProvider::Grok => "grok",
            AIProvider::Qwen => "qwen",
        }
    }
}

/// The whole parsed command line for the settings subcommands.
pub struct AskArgsParser {
    pub command: AskCommand,
}

/// The two settings subcommands.
pub enum AskCommand {
    Config(ConfigCommand),
    Preset(PresetCommand),
}

/// Configuration management.
pub struct ConfigCommand {
    pub command: ConfigSubcommand,
}

/// The configuration operations.
pub enum ConfigSubcommand {
    /// List current configuration settings.
    Show,
    /// Set the AI provider to use.
    Provider(ConfigProviderArgs),
    /// Set the timeout for requests.
    Timeout(ConfigTimeoutArgs),
    /// Set the AI model to use.
    Model(ConfigModelArgs),
}

pub struct ConfigProviderArgs {
    pub provider: AIProvider,
}

pub struct ConfigTimeoutArgs {
    pub timeout: u64,
}

pub struct ConfigModelArgs {
    pub model: AIModel,
}

/// Preset management.
pub struct PresetCommand {
    pub command: PresetSubcommand,
}

/// The preset operations.
pub enum PresetSubcommand {
    /// Create or replace a preset.
    Put(PresetSetArgs),
    /// List all presets.
    List,
    /// Remove one preset.
    Remove(PresetRemoveArgs),
}

pub struct PresetSetArgs {
    /// Name of the preset.
    pub name: String,
    /// The words of the preset's prompt.
    pub prompt: Vec<String>,
}

pub struct PresetRemoveArgs {
    /// Name of the preset to remove.
    pub name: String,
}

} // verus!
