//! Command-line logic: the subcommands' actions, and what the commands
//! decide and print, apart from their input and output.

pub mod agent;
pub mod batch;
pub mod common;
pub mod daemon;
pub mod doctor;
pub mod gateway;
pub mod hardware;
pub mod memory;
pub mod onboard;
pub mod skills;
pub mod slash;
pub mod status;
pub mod template;
pub mod tools;
pub mod update;
pub mod watch;

use vstd::prelude::*;

verus! {

/// Skills subcommands.
pub enum SkillsAction {
    /// List skills (ready-only by default); `all` includes unavailable ones.
    List { all: bool },
    /// Show full skill content.
    Show { name: String },
    /// Create a new workspace skill template.
    Create { name: String },
    /// Search for skills on ClawHub and GitHub (`source`: clawhub, github or all).
    Search { query: String, source: String },
    /// Install a skill by name (from the community repo) or from `github`.
    Install { name: String, github: Option<String> },
}

/// Tools subcommands.
pub enum ToolsAction {
    /// List all available tools with status.
    List,
    /// Show details for a specific tool.
    Info { name: String },
}

/// Authentication subcommands.
pub enum AuthAction {
    /// Log in to an AI provider via OAuth browser sign-in.
    Login { provider: Option<String> },
    /// Log out from an AI provider (delete stored OAuth tokens).
    Logout { provider: Option<String> },
    /// Show authentication status for all providers.
    Status,
    /// Force refresh OAuth tokens.
    Refresh { provider: String },
    /// Set up a subscription token for API access.
    SetupToken,
}

/// Configuration subcommands.
pub enum ConfigAction {
    /// Check configuration for errors and warnings.
    Check,
}

/// Channel subcommands.
pub enum ChannelAction {
    /// List all channels and their status.
    List,
    /// Interactive setup for a channel.
    Setup { channel_name: String },
    /// Test channel connectivity.
    Test { channel_name: String },
}

/// Conversation history subcommands.
pub enum HistoryAction {
    /// List recent CLI conversations (default limit 20).
    List { limit: usize },
    /// Show a conversation by session key or title query.
    Show { query: String },
    /// Remove old CLI conversations, keeping the `keep` most recent (default 50).
    Cleanup { keep: usize },
}

/// Template subcommands.
pub enum TemplateAction {
    /// List available templates (built-in + user-defined).
    List,
    /// Show full template details.
    Show { name: String },
}

/// Secrets subcommands.
pub enum SecretsAction {
    /// Encrypt all plaintext secrets in config.
    Encrypt,
    /// Decrypt all secrets for editing.
    Decrypt,
    /// Re-encrypt with a new key.
    Rotate,
}

/// Device pairing subcommands.
pub enum PairAction {
    /// Generate a new 6-digit pairing code.
    New,
    /// List all paired devices.
    List,
    /// Revoke a paired device.
    Revoke { device: String },
}

/// Hardware subcommands.
#[derive(Debug, Clone)]
pub enum HardwareAction {
    /// List discovered USB devices.
    List,
    /// Show info about a specific device (name or VID:PID).
    Info { device: String },
}

/// Output format of batch results.
#[derive(Copy, Clone, Debug, PartialEq, Eq, Structural)]
pub enum BatchFormat {
    Text,
    Jsonl,
}

} // verus!
