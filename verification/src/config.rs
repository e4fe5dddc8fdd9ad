//! Configuration types with their defaults.

use vstd::prelude::*;
use std::collections::HashMap;
use crate::cron::OnMiss;

verus! {

/// Project management backend selection.
#[derive(Debug, Clone, Copy, PartialEq, Eq, Structural)]
pub enum ProjectBackend {
    /// GitHub Issues REST API.
    Github,
    /// Jira REST API v3.
    Jira,
    /// Linear GraphQL API.
    Linear,
}

impl ProjectBackend {
    /// Whether this is the default value.
    pub open spec fn defaulted(self) -> bool {
        self == ProjectBackend::Github
    }
}

impl Default for ProjectBackend {
    fn default() -> (r: Self)
        ensures
            r.defaulted(),
    {
        ProjectBackend::Github
    }
}

/// Log output format.
#[derive(Debug, Clone, Copy, PartialEq, Eq, Structural)]
pub enum LogFormat {
    /// Default tracing pretty-print.
    Pretty,
    /// Component-tagged format, grep-friendly (`[component] message`).
    Component,
    /// Structured JSON lines for log aggregators.
    Json,
}

impl LogFormat {
    /// Whether this is the default value.
    pub open spec fn defaulted(self) -> bool {
        self == LogFormat::Component
    }
}

impl Default for LogFormat {
    fn default() -> (r: Self)
        ensures
            r.defaulted(),
    {
        LogFormat::Component
    }
}

/// How to handle messages that arrive while an agent run is active.
#[derive(Debug, Clone, Copy, PartialEq, Eq, Structural)]
pub enum MessageQueueMode {
    /// Buffer messages, concatenate into one when the current run finishes.
    Collect,
    /// Buffer messages, replay each as a separate run after the current one finishes.
    Followup,
}

impl MessageQueueMode {
    /// Whether this is the default value.
    pub open spec fn defaulted(self) -> bool {
        self == MessageQueueMode::Collect
    }
}

impl Default for MessageQueueMode {
    fn default() -> (r: Self)
        ensures
            r.defaulted(),
    {
        MessageQueueMode::Collect
    }
}

/// Memory backend selection.
#[derive(Debug, Clone, Copy, PartialEq, Eq, Structural)]
pub enum MemoryBackend {
    /// Disable memory tools.
    Disabled,
    /// Built-in substring search (zero cost).
    Builtin,
    /// BM25 keyword scoring.
    Bm25,
    /// LLM embedding + cosine similarity.
    Embedding,
    /// HNSW approximate nearest neighbor.
    Hnsw,
    /// Tantivy full-text search engine.
    Tantivy,
    /// QMD backend (falls back safely when unavailable).
    Qmd,
}

impl MemoryBackend {
    /// Whether this is the default value.
    pub open spec fn defaulted(self) -> bool {
        self == MemoryBackend::Builtin
    }
}

impl Default for MemoryBackend {
    fn default() -> (r: Self)
        ensures
            r.defaulted(),
    {
        MemoryBackend::Builtin
    }
}

/// Memory citation mode.
#[derive(Debug, Clone, Copy, PartialEq, Eq, Structural)]
pub enum MemoryCitationsMode {
    /// Show citations depending on channel context.
    Auto,
    /// Always include citations in snippets.
    On,
    /// Never include citations in snippets.
    Off,
}

impl MemoryCitationsMode {
    /// Whether this is the default value.
    pub open spec fn defaulted(self) -> bool {
        self == MemoryCitationsMode::Auto
    }
}

impl Default for MemoryCitationsMode {
    fn default() -> (r: Self)
        ensures
            r.defaulted(),
    {
        MemoryCitationsMode::Auto
    }
}

/// Container runtime type for shell command execution.
#[derive(Debug, Clone, Copy, PartialEq, Eq, Structural)]
pub enum RuntimeType {
    /// Native execution (no container isolation).
    Native,
    /// Docker container isolation.
    Docker,
    /// Apple Container isolation (macOS only).
    AppleContainer,
}

impl RuntimeType {
    /// Whether this is the default value.
    pub open spec fn defaulted(self) -> bool {
        self == RuntimeType::Native
    }
}

impl Default for RuntimeType {
    fn default() -> (r: Self)
        ensures
            r.defaulted(),
    {
        RuntimeType::Native
    }
}

/// Container backend for the containerized agent proxy.
#[derive(Debug, Clone, Copy, PartialEq, Eq, Structural)]
pub enum ContainerAgentBackend {
    /// Auto-detect: on macOS try Apple Container first, then Docker.
    Auto,
    /// Always use Docker.
    Docker,
    /// Use Apple Container (macOS only).
    Apple,
}

impl ContainerAgentBackend {
    /// Whether this is the default value.
    pub open spec fn defaulted(self) -> bool {
        self == ContainerAgentBackend::Auto
    }
}

impl Default for ContainerAgentBackend {
    fn default() -> (r: Self)
        ensures
            r.defaulted(),
    {
        ContainerAgentBackend::Auto
    }
}

/// Order in which rotated providers are tried.
#[derive(Debug, Clone, Copy, PartialEq, Eq, Structural)]
pub enum RotationStrategy {
    /// In the configured order.
    Priority,
    /// Each in turn.
    RoundRobin,
}

impl RotationStrategy {
    /// Whether this is the default value.
    pub open spec fn defaulted(self) -> bool {
        self == RotationStrategy::Priority
    }
}

impl Default for RotationStrategy {
    fn default() -> (r: Self)
        ensures
            r.defaulted(),
    {
        RotationStrategy::Priority
    }
}

/// Project management tool configuration.
#[derive(Debug, Clone)]
pub struct ProjectConfig {
    /// Backend to use (github, jira, linear).
    pub backend: ProjectBackend,
    /// Default project key/repo.
    pub default_project: String,
    /// Jira base URL.
    pub jira_url: String,
    /// Jira API token (base64 encoded "email:token").
    pub jira_token: Option<String>,
    /// GitHub personal access token.
    pub github_token: Option<String>,
    /// Linear API key.
    pub linear_api_key: Option<String>,
}

impl ProjectConfig {
    /// Whether every field holds its default value.
    pub open spec fn defaulted(self) -> bool {
        &&& self.backend == ProjectBackend::Github
        &&& self.default_project@.len() == 0
        &&& self.jira_url@.len() == 0
        &&& self.jira_token is None
        &&& self.github_token is None
        &&& self.linear_api_key is None
    }
}

impl Default for ProjectConfig {
    fn default() -> (r: Self)
        ensures
            r.defaulted(),
    {
        ProjectConfig {
            backend: ProjectBackend::Github,
            default_project: String::new(),
            jira_url: String::new(),
            jira_token: None,
            github_token: None,
            linear_api_key: None,
        }
    }
}

/// Logging configuration.
#[derive(Debug, Clone)]
pub struct LoggingConfig {
    /// Log output format (default: component).
    pub format: LogFormat,
    /// Optional path to a log file.
    pub file: Option<String>,
    /// Log level filter string (default: "info").
    pub level: String,
}

impl LoggingConfig {
    /// Whether every field holds its default value.
    pub open spec fn defaulted(self) -> bool {
        &&& self.format == LogFormat::Component
        &&& self.file is None
        &&& self.level@ == "info"@
    }
}

impl Default for LoggingConfig {
    fn default() -> (r: Self)
        ensures
            r.defaulted(),
    {
        LoggingConfig {
            format: LogFormat::Component,
            file: None,
            level: String::from_str("info"),
        }
    }
}

/// Device event monitoring configuration.
#[derive(Debug, Clone)]
pub struct DevicesConfig {
    /// Enable device event monitoring (default: false).
    pub enabled: bool,
    /// Monitor USB hotplug events (default: false).
    pub monitor_usb: bool,
}

impl DevicesConfig {
    /// Whether every field holds its default value.
    pub open spec fn defaulted(self) -> bool {
        &&& self.enabled == false
        &&& self.monitor_usb == false
    }
}

impl Default for DevicesConfig {
    fn default() -> (r: Self)
        ensures
            r.defaulted(),
    {
        DevicesConfig {
            enabled: false,
            monitor_usb: false,
        }
    }
}

/// LLM response cache configuration.
#[derive(Debug, Clone)]
pub struct CacheConfig {
    /// Whether the response cache is enabled.
    pub enabled: bool,
    /// Time-to-live for cache entries in seconds.
    pub ttl_secs: u64,
    /// Maximum number of cached entries before LRU eviction.
    pub max_entries: usize,
}

impl CacheConfig {
    /// Whether every field holds its default value.
    pub open spec fn defaulted(self) -> bool {
        &&& self.enabled == false
        &&& self.ttl_secs == 3600
        &&& self.max_entries == 500
    }
}

impl Default for CacheConfig {
    fn default() -> (r: Self)
        ensures
            r.defaulted(),
    {
        CacheConfig {
            enabled: false,
            ttl_secs: 3600,
            max_entries: 500,
        }
    }
}

/// Device pairing configuration.
#[derive(Debug, Clone)]
pub struct PairingConfig {
    /// Whether device pairing is required for gateway access.
    pub enabled: bool,
    /// Maximum failed pairing/validation attempts before lockout.
    pub max_attempts: u32,
    /// Duration in seconds to lock out after max_attempts is exceeded.
    pub lockout_secs: u64,
}

impl PairingConfig {
    /// Whether every field holds its default value.
    pub open spec fn defaulted(self) -> bool {
        &&& self.enabled == false
        &&& self.max_attempts == 5
        &&& self.lockout_secs == 300
    }
}

impl Default for PairingConfig {
    fn default() -> (r: Self)
        ensures
            r.defaulted(),
    {
        PairingConfig {
            enabled: false,
            max_attempts: 5,
            lockout_secs: 300,
        }
    }
}

/// HTTP health server configuration.
#[derive(Debug, Clone)]
pub struct HealthConfig {
    /// Whether the health HTTP server is enabled (default: false).
    pub enabled: bool,
    /// Host/IP to bind the health server (default: 127.0.0.1).
    pub host: String,
    /// Port to bind the health server (default: 9090).
    pub port: u16,
}

impl HealthConfig {
    /// Whether every field holds its default value.
    pub open spec fn defaulted(self) -> bool {
        &&& self.enabled == false
        &&& self.host@ == "127.0.0.1"@
        &&& self.port == 9090
    }
}

impl Default for HealthConfig {
    fn default() -> (r: Self)
        ensures
            r.defaulted(),
    {
        HealthConfig {
            enabled: false,
            host: String::from_str("127.0.0.1"),
            port: 9090,
        }
    }
}

/// Configuration for a single MCP server.
#[derive(Debug, Clone)]
pub struct McpServerConfig {
    /// Human-readable server name (used as tool name prefix).
    pub name: String,
    /// Server URL endpoint.
    pub url: String,
    /// Request timeout in seconds (default: 30).
    pub timeout_secs: u64,
}

/// MCP (Model Context Protocol) server configuration.
#[derive(Debug, Clone)]
pub struct McpConfig {
    /// MCP server definitions.
    pub servers: Vec<McpServerConfig>,
}

impl McpConfig {
    /// Whether every field holds its default value.
    pub open spec fn defaulted(self) -> bool {
        &&& self.servers@.len() == 0
    }
}

impl Default for McpConfig {
    fn default() -> (r: Self)
        ensures
            r.defaulted(),
    {
        McpConfig {
            servers: Vec::new(),
        }
    }
}

/// Routines (event/webhook/cron triggers) configuration.
#[derive(Debug, Clone)]
pub struct RoutinesConfig {
    /// Whether the routines engine is enabled.
    pub enabled: bool,
    /// Cron tick interval in seconds.
    pub cron_interval_secs: u64,
    /// Maximum concurrent routine executions.
    pub max_concurrent: usize,
    /// Random jitter in milliseconds added to cron tick intervals.
    pub jitter_ms: u64,
    /// Policy for missed schedules when the process restarts.
    pub on_miss: OnMiss,
}

impl RoutinesConfig {
    /// Whether every field holds its default value.
    pub open spec fn defaulted(self) -> bool {
        &&& self.enabled == false
        &&& self.cron_interval_secs == 60
        &&& self.max_concurrent == 3
        &&& self.jitter_ms == 0
        &&& self.on_miss == OnMiss::Skip
    }
}

impl Default for RoutinesConfig {
    fn default() -> (r: Self)
        ensures
            r.defaulted(),
    {
        RoutinesConfig {
            enabled: false,
            cron_interval_secs: 60,
            max_concurrent: 3,
            jitter_ms: 0,
            on_miss: OnMiss::Skip,
        }
    }
}

/// Stripe payment integration configuration.
#[derive(Debug, Clone)]
pub struct StripeConfig {
    /// Stripe secret key (sk_live_... or sk_test_...).
    pub secret_key: Option<String>,
    /// Default currency code for payment intents.
    pub default_currency: String,
    /// Webhook signing secret for signature verification.
    pub webhook_secret: Option<String>,
}

impl StripeConfig {
    /// Whether every field holds its default value.
    pub open spec fn defaulted(self) -> bool {
        &&& self.secret_key is None
        &&& self.default_currency@ == "usd"@
        &&& self.webhook_secret is None
    }
}

impl Default for StripeConfig {
    fn default() -> (r: Self)
        ensures
            r.defaulted(),
    {
        StripeConfig {
            secret_key: None,
            default_currency: String::from_str("usd"),
            webhook_secret: None,
        }
    }
}

/// Cloudflare Tunnel provider configuration.
#[derive(Debug, Clone)]
pub struct CloudflareTunnelConfig {
    /// Cloudflare Tunnel token for named tunnels; without one a quick tunnel is used.
    pub token: Option<String>,
}

impl CloudflareTunnelConfig {
    /// Whether every field holds its default value.
    pub open spec fn defaulted(self) -> bool {
        &&& self.token is None
    }
}

impl Default for CloudflareTunnelConfig {
    fn default() -> (r: Self)
        ensures
            r.defaulted(),
    {
        CloudflareTunnelConfig {
            token: None,
        }
    }
}

/// ngrok tunnel provider configuration.
#[derive(Debug, Clone)]
pub struct NgrokTunnelConfig {
    /// ngrok authtoken for authenticated tunnels.
    pub authtoken: Option<String>,
    /// Custom domain to use (requires ngrok paid plan).
    pub domain: Option<String>,
}

impl NgrokTunnelConfig {
    /// Whether every field holds its default value.
    pub open spec fn defaulted(self) -> bool {
        &&& self.authtoken is None
        &&& self.domain is None
    }
}

impl Default for NgrokTunnelConfig {
    fn default() -> (r: Self)
        ensures
            r.defaulted(),
    {
        NgrokTunnelConfig {
            authtoken: None,
            domain: None,
        }
    }
}

/// Tailscale Funnel/Serve provider configuration.
#[derive(Debug, Clone)]
pub struct TailscaleTunnelConfig {
    /// Use Tailscale Funnel (public) instead of Serve (tailnet-only). Default: true.
    pub funnel: bool,
}

impl TailscaleTunnelConfig {
    /// Whether every field holds its default value.
    pub open spec fn defaulted(self) -> bool {
        &&& self.funnel == true
    }
}

impl Default for TailscaleTunnelConfig {
    fn default() -> (r: Self)
        ensures
            r.defaulted(),
    {
        TailscaleTunnelConfig {
            funnel: true,
        }
    }
}

/// Tunnel configuration for exposing local ports via public URLs.
#[derive(Debug, Clone)]
pub struct TunnelConfig {
    /// Tunnel provider name ("cloudflare", "ngrok", "tailscale", or "auto").
    pub provider: Option<String>,
    /// Cloudflare Tunnel configuration.
    pub cloudflare: Option<CloudflareTunnelConfig>,
    /// ngrok tunnel configuration.
    pub ngrok: Option<NgrokTunnelConfig>,
    /// Tailscale Funnel/Serve configuration.
    pub tailscale: Option<TailscaleTunnelConfig>,
}

impl TunnelConfig {
    /// Whether every field holds its default value.
    pub open spec fn defaulted(self) -> bool {
        &&& self.provider is None
        &&& self.cloudflare is None
        &&& self.ngrok is None
        &&& self.tailscale is None
    }
}

impl Default for TunnelConfig {
    fn default() -> (r: Self)
        ensures
            r.defaulted(),
    {
        TunnelConfig {
            provider: None,
            cloudflare: None,
            ngrok: None,
            tailscale: None,
        }
    }
}

/// Configuration for audio transcription (voice messages).
#[derive(Debug, Clone)]
pub struct TranscriptionConfig {
    /// Whether to transcribe audio messages (default: true).
    pub enabled: bool,
    /// Whisper-compatible model name (default: "whisper-1").
    pub model: String,
}

impl TranscriptionConfig {
    /// Whether every field holds its default value.
    pub open spec fn defaulted(self) -> bool {
        &&& self.enabled == true
        &&& self.model@ == "whisper-1"@
    }
}

impl Default for TranscriptionConfig {
    fn default() -> (r: Self)
        ensures
            r.defaulted(),
    {
        TranscriptionConfig {
            enabled: true,
            model: String::from_str("whisper-1"),
        }
    }
}

/// Webhook inbound channel configuration.
#[derive(Debug, Clone)]
pub struct WebhookConfig {
    /// Whether the channel is enabled.
    pub enabled: bool,
    /// Address to bind the HTTP server to.
    pub bind_address: String,
    /// Port to listen on.
    pub port: u16,
    /// URL path to accept webhook requests on.
    pub path: String,
    /// Optional Bearer token for request authentication.
    pub auth_token: Option<String>,
    /// Allowlist of sender IDs (empty = allow all unless `deny_by_default` is set).
    pub allow_from: Vec<String>,
    /// When true, empty `allow_from` rejects all senders (strict mode).
    pub deny_by_default: bool,
}

impl WebhookConfig {
    /// Whether every field holds its default value.
    pub open spec fn defaulted(self) -> bool {
        &&& self.enabled == false
        &&& self.bind_address@ == "127.0.0.1"@
        &&& self.port == 9876
        &&& self.path@ == "/webhook"@
        &&& self.auth_token is None
        &&& self.allow_from@.len() == 0
        &&& self.deny_by_default == false
    }
}

impl Default for WebhookConfig {
    fn default() -> (r: Self)
        ensures
            r.defaulted(),
    {
        WebhookConfig {
            enabled: false,
            bind_address: String::from_str("127.0.0.1"),
            port: 9876,
            path: String::from_str("/webhook"),
            auth_token: None,
            allow_from: Vec::new(),
            deny_by_default: false,
        }
    }
}

/// Telegram channel configuration.
#[derive(Debug, Clone)]
pub struct TelegramConfig {
    /// Whether the channel is enabled.
    pub enabled: bool,
    /// Bot token from BotFather.
    pub token: String,
    /// Allowlist of user IDs/usernames (empty = allow all unless `deny_by_default` is set).
    pub allow_from: Vec<String>,
    /// When true, empty `allow_from` rejects all senders (strict mode).
    pub deny_by_default: bool,
}

impl TelegramConfig {
    /// Whether every field holds its default value.
    pub open spec fn defaulted(self) -> bool {
        &&& self.enabled == false
        &&& self.token@.len() == 0
        &&& self.allow_from@.len() == 0
        &&& self.deny_by_default == false
    }
}

impl Default for TelegramConfig {
    fn default() -> (r: Self)
        ensures
            r.defaulted(),
    {
        TelegramConfig {
            enabled: false,
            token: String::new(),
            allow_from: Vec::new(),
            deny_by_default: false,
        }
    }
}

/// Discord channel configuration.
#[derive(Debug, Clone)]
pub struct DiscordConfig {
    /// Whether the channel is enabled.
    pub enabled: bool,
    /// Bot token from Discord Developer Portal.
    pub token: String,
    /// Allowlist of user IDs (empty = allow all unless `deny_by_default` is set).
    pub allow_from: Vec<String>,
    /// When true, empty `allow_from` rejects all senders (strict mode).
    pub deny_by_default: bool,
}

impl DiscordConfig {
    /// Whether every field holds its default value.
    pub open spec fn defaulted(self) -> bool {
        &&& self.enabled == false
        &&& self.token@.len() == 0
        &&& self.allow_from@.len() == 0
        &&& self.deny_by_default == false
    }
}

impl Default for DiscordConfig {
    fn default() -> (r: Self)
        ensures
            r.defaulted(),
    {
        DiscordConfig {
            enabled: false,
            token: String::new(),
            allow_from: Vec::new(),
            deny_by_default: false,
        }
    }
}

/// Slack channel configuration.
#[derive(Debug, Clone)]
pub struct SlackConfig {
    /// Whether the channel is enabled.
    pub enabled: bool,
    /// Bot token (xoxb-...).
    pub bot_token: String,
    /// App-level token (xapp-...).
    pub app_token: String,
    /// Allowlist of user IDs (empty = allow all unless `deny_by_default` is set).
    pub allow_from: Vec<String>,
    /// When true, empty `allow_from` rejects all senders (strict mode).
    pub deny_by_default: bool,
}

impl SlackConfig {
    /// Whether every field holds its default value.
    pub open spec fn defaulted(self) -> bool {
        &&& self.enabled == false
        &&& self.bot_token@.len() == 0
        &&& self.app_token@.len() == 0
        &&& self.allow_from@.len() == 0
        &&& self.deny_by_default == false
    }
}

impl Default for SlackConfig {
    fn default() -> (r: Self)
        ensures
            r.defaulted(),
    {
        SlackConfig {
            enabled: false,
            bot_token: String::new(),
            app_token: String::new(),
            allow_from: Vec::new(),
            deny_by_default: false,
        }
    }
}

/// WhatsApp channel configuration (via bridge).
#[derive(Debug, Clone)]
pub struct WhatsAppConfig {
    /// Whether the channel is enabled.
    pub enabled: bool,
    /// WebSocket bridge URL.
    pub bridge_url: String,
    /// Optional Bearer token for authenticating to the bridge WebSocket.
    pub bridge_token: Option<String>,
    /// Allowlist of phone numbers (empty = allow all unless `deny_by_default` is set).
    pub allow_from: Vec<String>,
    /// When true, empty `allow_from` rejects all senders (strict mode).
    pub deny_by_default: bool,
    /// Whether the bridge binary's lifecycle is managed here.
    pub bridge_managed: bool,
}

impl WhatsAppConfig {
    /// Whether every field holds its default value.
    pub open spec fn defaulted(self) -> bool {
        &&& self.enabled == false
        &&& self.bridge_url@ == "ws://localhost:3001"@
        &&& self.bridge_token is None
        &&& self.allow_from@.len() == 0
        &&& self.deny_by_default == false
        &&& self.bridge_managed == true
    }
}

impl Default for WhatsAppConfig {
    fn default() -> (r: Self)
        ensures
            r.defaulted(),
    {
        WhatsAppConfig {
            enabled: false,
            bridge_url: String::from_str("ws://localhost:3001"),
            bridge_token: None,
            allow_from: Vec::new(),
            deny_by_default: false,
            bridge_managed: true,
        }
    }
}

/// WhatsApp Cloud API channel configuration (official Meta API).
#[derive(Debug, Clone)]
pub struct WhatsAppCloudConfig {
    /// Whether the channel is enabled.
    pub enabled: bool,
    /// Phone number ID from Meta Business dashboard.
    pub phone_number_id: String,
    /// Permanent access token for Cloud API.
    pub access_token: String,
    /// Webhook verify token (must match the Meta dashboard).
    pub webhook_verify_token: String,
    /// Address to bind the webhook HTTP server to.
    pub bind_address: String,
    /// Port for the webhook HTTP server.
    pub port: u16,
    /// URL path for the webhook endpoint.
    pub path: String,
    /// Allowlist of phone numbers (empty = allow all unless `deny_by_default` is set).
    pub allow_from: Vec<String>,
    /// When true, empty `allow_from` rejects all senders (strict mode).
    pub deny_by_default: bool,
}

impl WhatsAppCloudConfig {
    /// Whether every field holds its default value.
    pub open spec fn defaulted(self) -> bool {
        &&& self.enabled == false
        &&& self.phone_number_id@.len() == 0
        &&& self.access_token@.len() == 0
        &&& self.webhook_verify_token@.len() == 0
        &&& self.bind_address@ == "127.0.0.1"@
        &&& self.port == 9877
        &&& self.path@ == "/whatsapp"@
        &&& self.allow_from@.len() == 0
        &&& self.deny_by_default == false
    }
}

impl Default for WhatsAppCloudConfig {
    fn default() -> (r: Self)
        ensures
            r.defaulted(),
    {
        WhatsAppCloudConfig {
            enabled: false,
            phone_number_id: String::new(),
            access_token: String::new(),
            webhook_verify_token: String::new(),
            bind_address: String::from_str("127.0.0.1"),
            port: 9877,
            path: String::from_str("/whatsapp"),
            allow_from: Vec::new(),
            deny_by_default: false,
        }
    }
}

/// Feishu (Lark) channel configuration.
#[derive(Debug, Clone)]
pub struct FeishuConfig {
    /// Whether the channel is enabled.
    pub enabled: bool,
    /// App ID.
    pub app_id: String,
    /// App Secret.
    pub app_secret: String,
    /// Encrypt Key for event subscription.
    pub encrypt_key: String,
    /// Verification Token.
    pub verification_token: String,
    /// Allowlist of user IDs (empty = allow all unless `deny_by_default` is set).
    pub allow_from: Vec<String>,
    /// When true, empty `allow_from` rejects all senders (strict mode).
    pub deny_by_default: bool,
}

impl FeishuConfig {
    /// Whether every field holds its default value.
    pub open spec fn defaulted(self) -> bool {
        &&& self.enabled == false
        &&& self.app_id@.len() == 0
        &&& self.app_secret@.len() == 0
        &&& self.encrypt_key@.len() == 0
        &&& self.verification_token@.len() == 0
        &&& self.allow_from@.len() == 0
        &&& self.deny_by_default == false
    }
}

impl Default for FeishuConfig {
    fn default() -> (r: Self)
        ensures
            r.defaulted(),
    {
        FeishuConfig {
            enabled: false,
            app_id: String::new(),
            app_secret: String::new(),
            encrypt_key: String::new(),
            verification_token: String::new(),
            allow_from: Vec::new(),
            deny_by_default: false,
        }
    }
}

/// Lark (international) / Feishu (China) channel configuration.
#[derive(Debug, Clone)]
pub struct LarkConfig {
    /// Whether the channel is enabled.
    pub enabled: bool,
    /// Lark / Feishu application ID.
    pub app_id: String,
    /// Lark / Feishu application secret.
    pub app_secret: String,
    /// When true, use Feishu (open.feishu.cn); when false, use Lark (open.larksuite.com).
    pub feishu: bool,
    /// Allowlist of sender open_ids (empty = allow all unless deny_by_default).
    pub allowed_senders: Vec<String>,
    /// The bot's own open_id; messages from the bot itself are dropped.
    pub bot_open_id: Option<String>,
    /// When true, empty allowed_senders rejects all senders (strict mode).
    pub deny_by_default: bool,
}

impl LarkConfig {
    /// Whether every field holds its default value.
    pub open spec fn defaulted(self) -> bool {
        &&& self.enabled == false
        &&& self.app_id@.len() == 0
        &&& self.app_secret@.len() == 0
        &&& self.feishu == false
        &&& self.allowed_senders@.len() == 0
        &&& self.bot_open_id is None
        &&& self.deny_by_default == false
    }
}

impl Default for LarkConfig {
    fn default() -> (r: Self)
        ensures
            r.defaulted(),
    {
        LarkConfig {
            enabled: false,
            app_id: String::new(),
            app_secret: String::new(),
            feishu: false,
            allowed_senders: Vec::new(),
            bot_open_id: None,
            deny_by_default: false,
        }
    }
}

/// MaixCam channel configuration.
#[derive(Debug, Clone)]
pub struct MaixCamConfig {
    /// Whether the channel is enabled.
    pub enabled: bool,
    /// Host to bind to.
    pub host: String,
    /// Port to listen on.
    pub port: u16,
    /// Allowlist of device IDs (empty = allow all unless `deny_by_default` is set).
    pub allow_from: Vec<String>,
    /// When true, empty `allow_from` rejects all senders (strict mode).
    pub deny_by_default: bool,
}

impl MaixCamConfig {
    /// Whether every field holds its default value.
    pub open spec fn defaulted(self) -> bool {
        &&& self.enabled == false
        &&& self.host@ == "0.0.0.0"@
        &&& self.port == 18790
        &&& self.allow_from@.len() == 0
        &&& self.deny_by_default == false
    }
}

impl Default for MaixCamConfig {
    fn default() -> (r: Self)
        ensures
            r.defaulted(),
    {
        MaixCamConfig {
            enabled: false,
            host: String::from_str("0.0.0.0"),
            port: 18790,
            allow_from: Vec::new(),
            deny_by_default: false,
        }
    }
}

/// QQ channel configuration.
#[derive(Debug, Clone)]
pub struct QQConfig {
    /// Whether the channel is enabled.
    pub enabled: bool,
    /// App ID.
    pub app_id: String,
    /// App Secret.
    pub app_secret: String,
    /// Allowlist of QQ numbers (empty = allow all unless `deny_by_default` is set).
    pub allow_from: Vec<String>,
    /// When true, empty `allow_from` rejects all senders (strict mode).
    pub deny_by_default: bool,
}

impl QQConfig {
    /// Whether every field holds its default value.
    pub open spec fn defaulted(self) -> bool {
        &&& self.enabled == false
        &&& self.app_id@.len() == 0
        &&& self.app_secret@.len() == 0
        &&& self.allow_from@.len() == 0
        &&& self.deny_by_default == false
    }
}

impl Default for QQConfig {
    fn default() -> (r: Self)
        ensures
            r.defaulted(),
    {
        QQConfig {
            enabled: false,
            app_id: String::new(),
            app_secret: String::new(),
            allow_from: Vec::new(),
            deny_by_default: false,
        }
    }
}

/// DingTalk channel configuration.
#[derive(Debug, Clone)]
pub struct DingTalkConfig {
    /// Whether the channel is enabled.
    pub enabled: bool,
    /// Client ID.
    pub client_id: String,
    /// Client Secret.
    pub client_secret: String,
    /// Allowlist of user IDs (empty = allow all unless `deny_by_default` is set).
    pub allow_from: Vec<String>,
    /// When true, empty `allow_from` rejects all senders (strict mode).
    pub deny_by_default: bool,
}

impl DingTalkConfig {
    /// Whether every field holds its default value.
    pub open spec fn defaulted(self) -> bool {
        &&& self.enabled == false
        &&& self.client_id@.len() == 0
        &&& self.client_secret@.len() == 0
        &&& self.allow_from@.len() == 0
        &&& self.deny_by_default == false
    }
}

impl Default for DingTalkConfig {
    fn default() -> (r: Self)
        ensures
            r.defaulted(),
    {
        DingTalkConfig {
            enabled: false,
            client_id: String::new(),
            client_secret: String::new(),
            allow_from: Vec::new(),
            deny_by_default: false,
        }
    }
}

/// Email channel configuration (IMAP IDLE inbound + SMTP outbound).
#[derive(Clone)]
pub struct EmailConfig {
    /// IMAP server hostname (e.g. `imap.gmail.com`).
    pub imap_host: String,
    /// IMAP server port. Default: 993 (implicit TLS).
    pub imap_port: u16,
    /// SMTP server hostname (e.g. `smtp.gmail.com`).
    pub smtp_host: String,
    /// SMTP server port. Default: 587 (STARTTLS).
    pub smtp_port: u16,
    /// IMAP/SMTP login username.
    pub username: String,
    /// IMAP/SMTP login password (or app-password).
    pub password: String,
    /// IMAP mailbox folder to watch. Default: `INBOX`.
    pub imap_folder: String,
    /// Optional display name used as "From" header in outgoing mail.
    pub display_name: Option<String>,
    /// Allowlist of sender email addresses or domains.
    pub allowed_senders: Vec<String>,
    /// When `true` and `allowed_senders` is empty, all senders are denied.
    pub deny_by_default: bool,
    /// Seconds before restarting IDLE (RFC 2177 recommends < 30 min). Default: 1740.
    pub idle_timeout_secs: u64,
    /// When `true`, the channel is active. Default: `false`.
    pub enabled: bool,
}

impl EmailConfig {
    /// Whether every field holds its default value.
    pub open spec fn defaulted(self) -> bool {
        &&& self.imap_host@.len() == 0
        &&& self.imap_port == 993
        &&& self.smtp_host@.len() == 0
        &&& self.smtp_port == 587
        &&& self.username@.len() == 0
        &&& self.password@.len() == 0
        &&& self.imap_folder@ == "INBOX"@
        &&& self.display_name is None
        &&& self.allowed_senders@.len() == 0
        &&& self.deny_by_default == false
        &&& self.idle_timeout_secs == 1740
        &&& self.enabled == false
    }
}

impl Default for EmailConfig {
    fn default() -> (r: Self)
        ensures
            r.defaulted(),
    {
        EmailConfig {
            imap_host: String::new(),
            imap_port: 993,
            smtp_host: String::new(),
            smtp_port: 587,
            username: String::new(),
            password: String::new(),
            imap_folder: String::from_str("INBOX"),
            display_name: None,
            allowed_senders: Vec::new(),
            deny_by_default: false,
            idle_timeout_secs: 1740,
            enabled: false,
        }
    }
}

/// The `Debug` form of a text: quoted, with `str::escape_debug` escapes.
pub uninterp spec fn debug_quoted(s: Seq<char>) -> Seq<char>;

/// `format!("{:?}", s)` for a text. The result is named (`debug_quoted`):
/// it depends on the text alone.
#[verifier::external_body]
fn debug_str(s: &str) -> (r: String)
    ensures
        r@ == debug_quoted(s@),
{
    format!("{:?}", s)
}

/// The `Debug` forms of texts, separated by `, `.
pub open spec fn debug_items(s: Seq<Seq<char>>) -> Seq<char>
    decreases s.len(),
{
    if s.len() == 0 {
        Seq::empty()
    } else if s.len() == 1 {
        debug_quoted(s[0])
    } else {
        debug_items(s.drop_last()) + ", "@ + debug_quoted(s.last())
    }
}

/// The text of a flag.
pub open spec fn bool_text(b: bool) -> Seq<char> {
    if b {
        "true"@
    } else {
        "false"@
    }
}

/// The `Debug` text of an email configuration, which shows every field but
/// the password, in its place `"[redacted]"`: the text does not depend on
/// the password.
pub open spec fn email_debug_text(
    imap_host: Seq<char>,
    imap_port: u16,
    smtp_host: Seq<char>,
    smtp_port: u16,
    username: Seq<char>,
    imap_folder: Seq<char>,
    display_name: Option<Seq<char>>,
    allowed_senders: Seq<Seq<char>>,
    deny_by_default: bool,
    idle_timeout_secs: u64,
    enabled: bool,
) -> Seq<char> {
    "EmailConfig { imap_host: "@ + debug_quoted(imap_host) + ", imap_port: "@ + crate::text::decimal(imap_port as nat)
        + ", smtp_host: "@ + debug_quoted(smtp_host) + ", smtp_port: "@ + crate::text::decimal(smtp_port as nat)
        + ", username: "@ + debug_quoted(username) + ", password: \"[redacted]\", imap_folder: "@
        + debug_quoted(imap_folder) + ", display_name: "@ + match display_name {
        Some(d) => "Some("@ + debug_quoted(d) + ")"@,
        None => "None"@,
    } + ", allowed_senders: ["@ + debug_items(allowed_senders) + "], deny_by_default: "@ + bool_text(
        deny_by_default,
    ) + ", idle_timeout_secs: "@ + crate::text::decimal(idle_timeout_secs as nat) + ", enabled: "@ + bool_text(
        enabled,
    ) + " }"@
}

fn append_bool(s: &mut String, b: bool)
    ensures
        final(s)@ == old(s)@ + bool_text(b),
{
    if b {
        s.append("true");
    } else {
        s.append("false");
    }
}

impl EmailConfig {
    /// The `Debug` text of the configuration, with the password redacted.
    pub fn debug_text(&self) -> (r: String)
        ensures
            r@ == email_debug_text(
                self.imap_host@,
                self.imap_port,
                self.smtp_host@,
                self.smtp_port,
                self.username@,
                self.imap_folder@,
                crate::text::opt_text(self.display_name),
                crate::text::texts(self.allowed_senders@),
                self.deny_by_default,
                self.idle_timeout_secs,
                self.enabled,
            ),
    {
        let mut r = String::from_str("EmailConfig { imap_host: ");
        r.append(debug_str(self.imap_host.as_str()).as_str());
        r.append(", imap_port: ");
        r.append(crate::text::decimal_text(self.imap_port as u64).as_str());
        r.append(", smtp_host: ");
        r.append(debug_str(self.smtp_host.as_str()).as_str());
        r.append(", smtp_port: ");
        r.append(crate::text::decimal_text(self.smtp_port as u64).as_str());
        r.append(", username: ");
        r.append(debug_str(self.username.as_str()).as_str());
        r.append(", password: \"[redacted]\", imap_folder: ");
        r.append(debug_str(self.imap_folder.as_str()).as_str());
        r.append(", display_name: ");
        match &self.display_name {
            Some(d) => {
                r.append("Some(");
                r.append(debug_str(d.as_str()).as_str());
                r.append(")");
            },
            None => r.append("None"),
        }
        r.append(", allowed_senders: [");
        let ghost head = r@;
        let ghost items = crate::text::texts(self.allowed_senders@);
        let mut i: usize = 0;
        while i < self.allowed_senders.len()
            invariant
                i <= self.allowed_senders@.len(),
                items == crate::text::texts(self.allowed_senders@),
                r@ == head + debug_items(items.take(i as int)),
            decreases self.allowed_senders@.len() - i,
        {
            assert(items.take(i + 1).drop_last() =~= items.take(i as int));
            assert(items.take(i + 1).last() == self.allowed_senders@[i as int]@);
            if i > 0 {
                r.append(", ");
            } else {
                assert(items.take(0) =~= Seq::<Seq<char>>::empty());
            }
            r.append(debug_str(self.allowed_senders[i].as_str()).as_str());
            i += 1;
        }
        assert(items.take(i as int) =~= items);
        r.append("], deny_by_default: ");
        append_bool(&mut r, self.deny_by_default);
        r.append(", idle_timeout_secs: ");
        r.append(crate::text::decimal_text(self.idle_timeout_secs).as_str());
        r.append(", enabled: ");
        append_bool(&mut r, self.enabled);
        r.append(" }");
        r
    }
}

/// All channel configurations.
#[derive(Clone)]
pub struct ChannelsConfig {
    /// Telegram bot configuration.
    pub telegram: Option<TelegramConfig>,
    /// Discord bot configuration.
    pub discord: Option<DiscordConfig>,
    /// Slack bot configuration.
    pub slack: Option<SlackConfig>,
    /// WhatsApp bridge configuration.
    pub whatsapp: Option<WhatsAppConfig>,
    /// WhatsApp Cloud API configuration (official API, no bridge).
    pub whatsapp_cloud: Option<WhatsAppCloudConfig>,
    /// Feishu (Lark) configuration.
    pub feishu: Option<FeishuConfig>,
    /// Lark/Feishu WS long-connection configuration.
    pub lark: Option<LarkConfig>,
    /// MaixCam configuration.
    pub maixcam: Option<MaixCamConfig>,
    /// QQ configuration.
    pub qq: Option<QQConfig>,
    /// DingTalk configuration.
    pub dingtalk: Option<DingTalkConfig>,
    /// Webhook inbound channel configuration.
    pub webhook: Option<WebhookConfig>,
    /// Email channel configuration (IMAP IDLE + SMTP).
    pub email: Option<EmailConfig>,
    /// Directory for channel plugins.
    pub channel_plugins_dir: Option<String>,
}

impl ChannelsConfig {
    /// Whether every field holds its default value.
    pub open spec fn defaulted(self) -> bool {
        &&& self.telegram is None
        &&& self.discord is None
        &&& self.slack is None
        &&& self.whatsapp is None
        &&& self.whatsapp_cloud is None
        &&& self.feishu is None
        &&& self.lark is None
        &&& self.maixcam is None
        &&& self.qq is None
        &&& self.dingtalk is None
        &&& self.webhook is None
        &&& self.email is None
        &&& self.channel_plugins_dir is None
    }
}

impl Default for ChannelsConfig {
    fn default() -> (r: Self)
        ensures
            r.defaulted(),
    {
        ChannelsConfig {
            telegram: None,
            discord: None,
            slack: None,
            whatsapp: None,
            whatsapp_cloud: None,
            feishu: None,
            lark: None,
            maixcam: None,
            qq: None,
            dingtalk: None,
            webhook: None,
            email: None,
            channel_plugins_dir: None,
        }
    }
}

/// Generic provider configuration.
#[derive(Debug, Clone)]
pub struct ProviderConfig {
    /// API key for authentication.
    pub api_key: Option<String>,
    /// Custom API base URL.
    pub api_base: Option<String>,
    /// Authentication method: "api_key" (default), "oauth", or "auto".
    pub auth_method: Option<String>,
}

impl ProviderConfig {
    /// Whether every field holds its default value.
    pub open spec fn defaulted(self) -> bool {
        &&& self.api_key is None
        &&& self.api_base is None
        &&& self.auth_method is None
    }
}

impl Default for ProviderConfig {
    fn default() -> (r: Self)
        ensures
            r.defaulted(),
    {
        ProviderConfig {
            api_key: None,
            api_base: None,
            auth_method: None,
        }
    }
}

/// Configuration for an external binary LLM provider plugin.
#[derive(Debug, Clone)]
pub struct ProviderPluginConfig {
    /// Unique provider name.
    pub name: String,
    /// Path to the provider binary.
    pub command: String,
    /// Additional arguments passed to the binary.
    pub args: Vec<String>,
}

/// Retry behavior for runtime provider calls.
#[derive(Debug, Clone)]
pub struct RetryConfig {
    /// Enable automatic retry for transient provider errors.
    pub enabled: bool,
    /// Maximum number of retry attempts.
    pub max_retries: u32,
    /// Base delay in milliseconds for exponential backoff.
    pub base_delay_ms: u64,
    /// Maximum delay cap in milliseconds for exponential backoff.
    pub max_delay_ms: u64,
}

impl RetryConfig {
    /// Whether every field holds its default value.
    pub open spec fn defaulted(self) -> bool {
        &&& self.enabled == false
        &&& self.max_retries == 3
        &&& self.base_delay_ms == 1000
        &&& self.max_delay_ms == 30000
    }
}

impl Default for RetryConfig {
    fn default() -> (r: Self)
        ensures
            r.defaulted(),
    {
        RetryConfig {
            enabled: false,
            max_retries: 3,
            base_delay_ms: 1000,
            max_delay_ms: 30000,
        }
    }
}

/// Fallback behavior across multiple configured runtime providers.
#[derive(Debug, Clone)]
pub struct FallbackConfig {
    /// Enable provider fallback (primary -> secondary) when possible.
    pub enabled: bool,
    /// Optional preferred fallback provider id.
    pub provider: Option<String>,
}

impl FallbackConfig {
    /// Whether every field holds its default value.
    pub open spec fn defaulted(self) -> bool {
        &&& self.enabled == false
        &&& self.provider is None
    }
}

impl Default for FallbackConfig {
    fn default() -> (r: Self)
        ensures
            r.defaulted(),
    {
        FallbackConfig {
            enabled: false,
            provider: None,
        }
    }
}

/// Provider rotation configuration for 3+ health-aware providers.
#[derive(Debug, Clone)]
pub struct RotationConfig {
    /// Enable provider rotation.
    pub enabled: bool,
    /// Provider names in rotation order.
    pub order: Vec<String>,
    /// Rotation strategy (priority or round_robin).
    pub strategy: RotationStrategy,
    /// Consecutive failures before marking a provider unhealthy (default: 3).
    pub failure_threshold: u32,
    /// Seconds to wait before retrying an unhealthy provider (default: 30).
    pub cooldown_secs: u64,
}

impl RotationConfig {
    /// Whether every field holds its default value.
    pub open spec fn defaulted(self) -> bool {
        &&& self.enabled == false
        &&& self.order@.len() == 0
        &&& self.strategy == RotationStrategy::Priority
        &&& self.failure_threshold == 3
        &&& self.cooldown_secs == 30
    }
}

impl Default for RotationConfig {
    fn default() -> (r: Self)
        ensures
            r.defaulted(),
    {
        RotationConfig {
            enabled: false,
            order: Vec::new(),
            strategy: RotationStrategy::Priority,
            failure_threshold: 3,
            cooldown_secs: 30,
        }
    }
}

/// All LLM provider configurations.
#[derive(Debug, Clone)]
pub struct ProvidersConfig {
    /// Anthropic configuration.
    pub anthropic: Option<ProviderConfig>,
    /// OpenAI configuration.
    pub openai: Option<ProviderConfig>,
    /// OpenRouter configuration.
    pub openrouter: Option<ProviderConfig>,
    /// Groq configuration.
    pub groq: Option<ProviderConfig>,
    /// Zhipu (GLM) configuration.
    pub zhipu: Option<ProviderConfig>,
    /// VLLM configuration.
    pub vllm: Option<ProviderConfig>,
    /// Google Gemini configuration.
    pub gemini: Option<ProviderConfig>,
    /// Ollama (local models) configuration.
    pub ollama: Option<ProviderConfig>,
    /// Nvidia NIM configuration.
    pub nvidia: Option<ProviderConfig>,
    /// Retry behavior for runtime provider calls.
    pub retry: RetryConfig,
    /// Fallback behavior across multiple configured runtime providers.
    pub fallback: FallbackConfig,
    /// Provider rotation configuration for 3+ health-aware providers.
    pub rotation: RotationConfig,
    /// External binary provider plugins.
    pub plugins: Vec<ProviderPluginConfig>,
}

impl ProvidersConfig {
    /// Whether every field holds its default value.
    pub open spec fn defaulted(self) -> bool {
        &&& self.anthropic is None
        &&& self.openai is None
        &&& self.openrouter is None
        &&& self.groq is None
        &&& self.zhipu is None
        &&& self.vllm is None
        &&& self.gemini is None
        &&& self.ollama is None
        &&& self.nvidia is None
        &&& self.retry.defaulted()
        &&& self.fallback.defaulted()
        &&& self.rotation.defaulted()
        &&& self.plugins@.len() == 0
    }
}

impl Default for ProvidersConfig {
    fn default() -> (r: Self)
        ensures
            r.defaulted(),
    {
        ProvidersConfig {
            anthropic: None,
            openai: None,
            openrouter: None,
            groq: None,
            zhipu: None,
            vllm: None,
            gemini: None,
            ollama: None,
            nvidia: None,
            retry: RetryConfig::default(),
            fallback: FallbackConfig::default(),
            rotation: RotationConfig::default(),
            plugins: Vec::new(),
        }
    }
}

/// Rate limiting configuration for gateway endpoints.
#[derive(Debug, Clone)]
pub struct RateLimitConfig {
    /// Max pairing requests per minute per IP (0 = unlimited).
    pub pair_per_min: u32,
    /// Max webhook requests per minute per IP (0 = unlimited).
    pub webhook_per_min: u32,
}

impl RateLimitConfig {
    /// Whether every field holds its default value.
    pub open spec fn defaulted(self) -> bool {
        &&& self.pair_per_min == 0
        &&& self.webhook_per_min == 0
    }
}

impl Default for RateLimitConfig {
    fn default() -> (r: Self)
        ensures
            r.defaulted(),
    {
        RateLimitConfig {
            pair_per_min: 0,
            webhook_per_min: 0,
        }
    }
}

/// Gateway server configuration.
#[derive(Debug, Clone)]
pub struct GatewayConfig {
    /// Host to bind to.
    pub host: String,
    /// Port to listen on.
    pub port: u16,
    /// Per-IP rate limiting for gateway endpoints.
    pub rate_limit: RateLimitConfig,
}

impl GatewayConfig {
    /// Whether every field holds its default value.
    pub open spec fn defaulted(self) -> bool {
        &&& self.host@ == "0.0.0.0"@
        &&& self.port == 8080
        &&& self.rate_limit.defaulted()
    }
}

impl Default for GatewayConfig {
    fn default() -> (r: Self)
        ensures
            r.defaulted(),
    {
        GatewayConfig {
            host: String::from_str("0.0.0.0"),
            port: 8080,
            rate_limit: RateLimitConfig::default(),
        }
    }
}

/// Voice transcription tool configuration.
#[derive(Debug, Clone)]
pub struct TranscribeConfig {
    /// Enable the transcribe tool.
    pub enabled: bool,
    /// Groq API key for Whisper transcription.
    pub groq_api_key: Option<String>,
    /// Whisper model to use.
    pub model: String,
}

impl TranscribeConfig {
    /// Whether every field holds its default value.
    pub open spec fn defaulted(self) -> bool {
        &&& self.enabled == false
        &&& self.groq_api_key is None
        &&& self.model@.len() == 0
    }
}

impl Default for TranscribeConfig {
    fn default() -> (r: Self)
        ensures
            r.defaulted(),
    {
        TranscribeConfig {
            enabled: false,
            groq_api_key: None,
            model: String::new(),
        }
    }
}

/// Configuration for the HTTP request tool.
#[derive(Debug, Clone)]
pub struct HttpRequestConfig {
    /// Allowlist of domains the agent may call.
    pub allowed_domains: Vec<String>,
    /// Request timeout in seconds.
    pub timeout_secs: u64,
    /// Maximum response body size in bytes.
    pub max_response_bytes: usize,
}

impl HttpRequestConfig {
    /// Whether every field holds its default value.
    pub open spec fn defaulted(self) -> bool {
        &&& self.allowed_domains@.len() == 0
        &&& self.timeout_secs == 0
        &&& self.max_response_bytes == 0
    }
}

impl Default for HttpRequestConfig {
    fn default() -> (r: Self)
        ensures
            r.defaulted(),
    {
        HttpRequestConfig {
            allowed_domains: Vec::new(),
            timeout_secs: 0,
            max_response_bytes: 0,
        }
    }
}

/// Web search configuration.
#[derive(Debug, Clone)]
pub struct WebSearchConfig {
    /// API key for search service.
    pub api_key: Option<String>,
    /// Maximum search results to return.
    pub max_results: u32,
}

impl WebSearchConfig {
    /// Whether every field holds its default value.
    pub open spec fn defaulted(self) -> bool {
        &&& self.api_key is None
        &&& self.max_results == 5
    }
}

impl Default for WebSearchConfig {
    fn default() -> (r: Self)
        ensures
            r.defaulted(),
    {
        WebSearchConfig {
            api_key: None,
            max_results: 5,
        }
    }
}

/// Web tools configuration.
#[derive(Debug, Clone)]
pub struct WebToolsConfig {
    /// Web search configuration.
    pub search: WebSearchConfig,
}

impl WebToolsConfig {
    /// Whether every field holds its default value.
    pub open spec fn defaulted(self) -> bool {
        &&& self.search.defaulted()
    }
}

impl Default for WebToolsConfig {
    fn default() -> (r: Self)
        ensures
            r.defaulted(),
    {
        WebToolsConfig {
            search: WebSearchConfig::default(),
        }
    }
}

/// WhatsApp Cloud API tool configuration.
#[derive(Debug, Clone)]
pub struct WhatsAppToolConfig {
    /// WhatsApp Business account ID (optional, informational).
    pub business_account_id: Option<String>,
    /// Phone number ID used in Cloud API endpoint path.
    pub phone_number_id: Option<String>,
    /// Permanent access token for Cloud API.
    pub access_token: Option<String>,
    /// Optional webhook verify token.
    pub webhook_verify_token: Option<String>,
    /// Default template language code.
    pub default_language: String,
}

impl WhatsAppToolConfig {
    /// Whether every field holds its default value.
    pub open spec fn defaulted(self) -> bool {
        &&& self.business_account_id is None
        &&& self.phone_number_id is None
        &&& self.access_token is None
        &&& self.webhook_verify_token is None
        &&& self.default_language@ == "ms"@
    }
}

impl Default for WhatsAppToolConfig {
    fn default() -> (r: Self)
        ensures
            r.defaulted(),
    {
        WhatsAppToolConfig {
            business_account_id: None,
            phone_number_id: None,
            access_token: None,
            webhook_verify_token: None,
            default_language: String::from_str("ms"),
        }
    }
}

/// Google Sheets tool configuration.
#[derive(Debug, Clone)]
pub struct GoogleSheetsToolConfig {
    /// OAuth bearer access token.
    pub access_token: Option<String>,
    /// Optional service account JSON encoded as base64.
    pub service_account_base64: Option<String>,
}

impl GoogleSheetsToolConfig {
    /// Whether every field holds its default value.
    pub open spec fn defaulted(self) -> bool {
        &&& self.access_token is None
        &&& self.service_account_base64 is None
    }
}

impl Default for GoogleSheetsToolConfig {
    fn default() -> (r: Self)
        ensures
            r.defaulted(),
    {
        GoogleSheetsToolConfig {
            access_token: None,
            service_account_base64: None,
        }
    }
}

/// ClawHub registry connection settings.
#[derive(Debug, Clone)]
pub struct ClawHubConfig {
    /// Enable the ClawHub registry (requires skills.enabled too).
    pub enabled: bool,
    /// Base URL for the ClawHub API.
    pub base_url: String,
    /// Optional Bearer token for authenticated registry access.
    pub auth_token: Option<String>,
}

impl ClawHubConfig {
    /// Whether every field holds its default value.
    pub open spec fn defaulted(self) -> bool {
        &&& self.enabled == true
        &&& self.base_url@ == "https://clawhub.ai"@
        &&& self.auth_token is None
    }
}

impl Default for ClawHubConfig {
    fn default() -> (r: Self)
        ensures
            r.defaulted(),
    {
        ClawHubConfig {
            enabled: true,
            base_url: String::from_str("https://clawhub.ai"),
            auth_token: None,
        }
    }
}

/// In-memory search result cache settings.
#[derive(Debug, Clone)]
pub struct SearchCacheConfig {
    /// Maximum number of cached queries.
    pub max_size: usize,
    /// Cache entry TTL in seconds.
    pub ttl_seconds: u64,
}

impl SearchCacheConfig {
    /// Whether every field holds its default value.
    pub open spec fn defaulted(self) -> bool {
        &&& self.max_size == 50
        &&& self.ttl_seconds == 300
    }
}

impl Default for SearchCacheConfig {
    fn default() -> (r: Self)
        ensures
            r.defaulted(),
    {
        SearchCacheConfig {
            max_size: 50,
            ttl_seconds: 300,
        }
    }
}

/// Skills marketplace (ClawHub) tool configuration.
#[derive(Debug, Clone)]
pub struct SkillsMarketplaceConfig {
    /// Enable skills marketplace tools (find_skills, install_skill).
    pub enabled: bool,
    /// ClawHub registry settings.
    pub clawhub: ClawHubConfig,
    /// In-memory search cache settings.
    pub search_cache: SearchCacheConfig,
}

impl SkillsMarketplaceConfig {
    /// Whether every field holds its default value.
    pub open spec fn defaulted(self) -> bool {
        &&& self.enabled == false
        &&& self.clawhub.defaulted()
        &&& self.search_cache.defaulted()
    }
}

impl Default for SkillsMarketplaceConfig {
    fn default() -> (r: Self)
        ensures
            r.defaulted(),
    {
        SkillsMarketplaceConfig {
            enabled: false,
            clawhub: ClawHubConfig::default(),
            search_cache: SearchCacheConfig::default(),
        }
    }
}

/// Tools configuration.
#[derive(Debug, Clone)]
pub struct ToolsConfig {
    /// Web tools configuration.
    pub web: WebToolsConfig,
    /// WhatsApp Cloud API tool configuration.
    pub whatsapp: WhatsAppToolConfig,
    /// Google Sheets tool configuration.
    pub google_sheets: GoogleSheetsToolConfig,
    /// HTTP request tool configuration.
    pub http_request: Option<HttpRequestConfig>,
    /// Voice transcription tool configuration.
    pub transcribe: TranscribeConfig,
    /// Skills marketplace (ClawHub) configuration.
    pub skills: SkillsMarketplaceConfig,
}

impl ToolsConfig {
    /// Whether every field holds its default value.
    pub open spec fn defaulted(self) -> bool {
        &&& self.web.defaulted()
        &&& self.whatsapp.defaulted()
        &&& self.google_sheets.defaulted()
        &&& self.http_request is None
        &&& self.transcribe.defaulted()
        &&& self.skills.defaulted()
    }
}

impl Default for ToolsConfig {
    fn default() -> (r: Self)
        ensures
            r.defaulted(),
    {
        ToolsConfig {
            web: WebToolsConfig::default(),
            whatsapp: WhatsAppToolConfig::default(),
            google_sheets: GoogleSheetsToolConfig::default(),
            http_request: None,
            transcribe: TranscribeConfig::default(),
            skills: SkillsMarketplaceConfig::default(),
        }
    }
}

/// Heartbeat background service configuration.
#[derive(Debug, Clone)]
pub struct HeartbeatConfig {
    /// Enable or disable heartbeat service.
    pub enabled: bool,
    /// Heartbeat interval in seconds.
    pub interval_secs: u64,
    /// Optional heartbeat file path override.
    pub file_path: Option<String>,
    /// Channel to deliver heartbeat results to (e.g., "telegram", "slack").
    pub deliver_to: Option<String>,
}

impl HeartbeatConfig {
    /// Whether every field holds its default value.
    pub open spec fn defaulted(self) -> bool {
        &&& self.enabled == false
        &&& self.interval_secs == 1800
        &&& self.file_path is None
        &&& self.deliver_to is None
    }
}

impl Default for HeartbeatConfig {
    fn default() -> (r: Self)
        ensures
            r.defaulted(),
    {
        HeartbeatConfig {
            enabled: false,
            interval_secs: 1800,
            file_path: None,
            deliver_to: None,
        }
    }
}

/// Skills system configuration.
#[derive(Debug, Clone)]
pub struct SkillsConfig {
    /// Enable or disable the skills system.
    pub enabled: bool,
    /// Optional workspace skills directory override.
    pub workspace_dir: Option<String>,
    /// Skills that should always be injected into context.
    pub always_load: Vec<String>,
    /// Built-in or workspace skills to disable by name.
    pub disabled: Vec<String>,
}

impl SkillsConfig {
    /// Whether every field holds its default value.
    pub open spec fn defaulted(self) -> bool {
        &&& self.enabled == true
        &&& self.workspace_dir is None
        &&& self.always_load@.len() == 0
        &&& self.disabled@.len() == 0
    }
}

impl Default for SkillsConfig {
    fn default() -> (r: Self)
        ensures
            r.defaulted(),
    {
        SkillsConfig {
            enabled: true,
            workspace_dir: None,
            always_load: Vec::new(),
            disabled: Vec::new(),
        }
    }
}

/// A pre-defined sub-agent role with system prompt and tool whitelist.
#[derive(Debug, Clone)]
pub struct SwarmRole {
    /// System prompt for this role.
    pub system_prompt: String,
    /// Allowed tool names (empty = all minus delegate/spawn).
    pub tools: Vec<String>,
}

impl SwarmRole {
    /// Whether every field holds its default value.
    pub open spec fn defaulted(self) -> bool {
        &&& self.system_prompt@.len() == 0
        &&& self.tools@.len() == 0
    }
}

impl Default for SwarmRole {
    fn default() -> (r: Self)
        ensures
            r.defaulted(),
    {
        SwarmRole {
            system_prompt: String::new(),
            tools: Vec::new(),
        }
    }
}

/// Swarm / multi-agent delegation configuration.
#[derive(Debug, Clone)]
pub struct SwarmConfig {
    /// Whether delegation is enabled.
    pub enabled: bool,
    /// Maximum delegation depth (1 = no sub-sub-agents).
    pub max_depth: u32,
    /// Maximum concurrent sub-agents.
    pub max_concurrent: u32,
    /// Pre-defined role presets with tool whitelists.
    pub roles: HashMap<String, SwarmRole>,
}

impl SwarmConfig {
    /// Whether every field holds its default value.
    pub open spec fn defaulted(self) -> bool {
        &&& self.enabled == true
        &&& self.max_depth == 1
        &&& self.max_concurrent == 3
        &&& self.roles@ == Map::<String, SwarmRole>::empty()
    }
}

impl Default for SwarmConfig {
    fn default() -> (r: Self)
        ensures
            r.defaulted(),
    {
        SwarmConfig {
            enabled: true,
            max_depth: 1,
            max_concurrent: 3,
            roles: HashMap::new(),
        }
    }
}

/// Docker runtime configuration.
#[derive(Debug, Clone)]
pub struct DockerConfig {
    /// Docker image to use for shell execution.
    pub image: String,
    /// Additional volume mounts (host:container format).
    pub extra_mounts: Vec<String>,
    /// Memory limit (e.g., "512m").
    pub memory_limit: Option<String>,
    /// CPU limit (e.g., "1.0").
    pub cpu_limit: Option<String>,
    /// Network mode (default: none for security).
    pub network: String,
    /// PID limit to prevent fork bombs. None = no limit.
    pub pids_limit: Option<u32>,
    /// Container stop timeout in seconds.
    pub stop_timeout_secs: u64,
}

impl DockerConfig {
    /// Whether every field holds its default value.
    pub open spec fn defaulted(self) -> bool {
        &&& self.image@ == "alpine:latest"@
        &&& self.extra_mounts@.len() == 0
        &&& self.memory_limit matches Some(s) && s@ == "512m"@
        &&& self.cpu_limit matches Some(s) && s@ == "1.0"@
        &&& self.network@ == "none"@
        &&& self.pids_limit == Some(100u32)
        &&& self.stop_timeout_secs == 300
    }
}

impl Default for DockerConfig {
    fn default() -> (r: Self)
        ensures
            r.defaulted(),
    {
        DockerConfig {
            image: String::from_str("alpine:latest"),
            extra_mounts: Vec::new(),
            memory_limit: Some(String::from_str("512m")),
            cpu_limit: Some(String::from_str("1.0")),
            network: String::from_str("none"),
            pids_limit: Some(100),
            stop_timeout_secs: 300,
        }
    }
}

/// Apple Container runtime configuration (macOS only).
#[derive(Debug, Clone)]
pub struct AppleContainerConfig {
    /// Container image/bundle path.
    pub image: String,
    /// Additional directory mounts.
    pub extra_mounts: Vec<String>,
    /// Allow use of Apple Container runtime (experimental).
    pub allow_experimental: bool,
}

impl AppleContainerConfig {
    /// Whether every field holds its default value.
    pub open spec fn defaulted(self) -> bool {
        &&& self.image@.len() == 0
        &&& self.extra_mounts@.len() == 0
        &&& self.allow_experimental == false
    }
}

impl Default for AppleContainerConfig {
    fn default() -> (r: Self)
        ensures
            r.defaulted(),
    {
        AppleContainerConfig {
            image: String::new(),
            extra_mounts: Vec::new(),
            allow_experimental: false,
        }
    }
}

/// Runtime configuration for shell execution.
#[derive(Debug, Clone)]
pub struct RuntimeConfig {
    /// Type of container runtime to use.
    pub runtime_type: RuntimeType,
    /// Whether to fall back to native runtime if the configured one is unavailable.
    pub allow_fallback_to_native: bool,
    /// Path to JSON allowlist used to validate runtime extra mounts.
    pub mount_allowlist_path: String,
    /// Docker-specific configuration.
    pub docker: DockerConfig,
    /// Apple Container-specific configuration (macOS).
    pub apple: AppleContainerConfig,
}

impl RuntimeConfig {
    /// Whether every field holds its default value.
    pub open spec fn defaulted(self) -> bool {
        &&& self.runtime_type == RuntimeType::Native
        &&& self.allow_fallback_to_native == false
        &&& self.mount_allowlist_path@ == "~/.zeptoclaw/mount-allowlist.json"@
        &&& self.docker.defaulted()
        &&& self.apple.defaulted()
    }
}

impl Default for RuntimeConfig {
    fn default() -> (r: Self)
        ensures
            r.defaulted(),
    {
        RuntimeConfig {
            runtime_type: RuntimeType::Native,
            allow_fallback_to_native: false,
            mount_allowlist_path: String::from_str("~/.zeptoclaw/mount-allowlist.json"),
            docker: DockerConfig::default(),
            apple: AppleContainerConfig::default(),
        }
    }
}

/// Configuration for containerized agent mode.
#[derive(Debug, Clone)]
pub struct ContainerAgentConfig {
    /// Container backend to use (auto, docker, apple).
    pub backend: ContainerAgentBackend,
    /// Container image for the agent.
    pub image: String,
    /// Docker binary path/name override (Docker backend only).
    pub docker_binary: Option<String>,
    /// Memory limit (e.g., "1g"), Docker only.
    pub memory_limit: Option<String>,
    /// CPU limit (e.g., "2.0"), Docker only.
    pub cpu_limit: Option<String>,
    /// Request timeout in seconds.
    pub timeout_secs: u64,
    /// Network mode (default: "none" for security), Docker only.
    pub network: String,
    /// Extra volume mounts (host:container format).
    pub extra_mounts: Vec<String>,
    /// Maximum number of concurrent container invocations.
    pub max_concurrent: usize,
}

impl ContainerAgentConfig {
    /// Whether every field holds its default value.
    pub open spec fn defaulted(self) -> bool {
        &&& self.backend == ContainerAgentBackend::Auto
        &&& self.image@ == "zeptoclaw:latest"@
        &&& self.docker_binary is None
        &&& self.memory_limit matches Some(s) && s@ == "1g"@
        &&& self.cpu_limit matches Some(s) && s@ == "2.0"@
        &&& self.timeout_secs == 300
        &&& self.network@ == "none"@
        &&& self.extra_mounts@.len() == 0
        &&& self.max_concurrent == 5
    }
}

impl Default for ContainerAgentConfig {
    fn default() -> (r: Self)
        ensures
            r.defaulted(),
    {
        ContainerAgentConfig {
            backend: ContainerAgentBackend::Auto,
            image: String::from_str("zeptoclaw:latest"),
            docker_binary: None,
            memory_limit: Some(String::from_str("1g")),
            cpu_limit: Some(String::from_str("2.0")),
            timeout_secs: 300,
            network: String::from_str("none"),
            extra_mounts: Vec::new(),
            max_concurrent: 5,
        }
    }
}


/// How a provider authenticates.
#[derive(Debug, Clone, Copy, PartialEq, Eq, Structural)]
pub enum AuthMethod {
    /// An API key (the default).
    ApiKey,
    /// OAuth tokens from a browser sign-in.
    OAuth,
    /// OAuth when available, else the API key.
    Auto,
}

/// The method a configured `auth_method` names: "oauth", "auto", or else
/// the API key.
pub open spec fn auth_method_of(s: Option<Seq<char>>) -> AuthMethod {
    match s {
        Some(m) => if m == "oauth"@ {
            AuthMethod::OAuth
        } else if m == "auto"@ {
            AuthMethod::Auto
        } else {
            AuthMethod::ApiKey
        },
        None => AuthMethod::ApiKey,
    }
}

impl AuthMethod {
    /// The method a configured `auth_method` names.
    pub fn from_option(s: Option<&str>) -> (r: Self)
        ensures
            r == auth_method_of(
                match s {
                    Some(m) => Some(m@),
                    None => None,
                },
            ),
    {
        match s {
            Some(m) => if crate::text::str_eq(m, "oauth") {
                AuthMethod::OAuth
            } else if crate::text::str_eq(m, "auto") {
                AuthMethod::Auto
            } else {
                AuthMethod::ApiKey
            },
            None => AuthMethod::ApiKey,
        }
    }
}

impl ProviderConfig {
    /// Resolve the authentication method for this provider.
    pub fn resolved_auth_method(&self) -> (r: AuthMethod)
        ensures
            r == auth_method_of(
                match self.auth_method {
                    Some(m) => Some(m@),
                    None => None,
                },
            ),
    {
        match &self.auth_method {
            Some(m) => AuthMethod::from_option(Some(m.as_str())),
            None => AuthMethod::from_option(None),
        }
    }
}

/// A tool defined as a shell command in config.
#[derive(Debug, Clone)]
pub struct CustomToolDef {
    /// Tool name (letters, digits and underscores, starting with a letter).
    pub name: String,
    /// Short description (keep under 60 chars for token efficiency).
    pub description: String,
    /// Shell command to execute. Supports {{param}} interpolation.
    pub command: String,
    /// Optional parameter definitions: names to JSON Schema types.
    pub parameters: Option<HashMap<String, String>>,
    /// Optional working directory override.
    pub working_dir: Option<String>,
    /// Command timeout in seconds.
    pub timeout_secs: Option<u64>,
    /// Optional environment variables.
    pub env: Option<HashMap<String, String>>,
}

/// The label of a memory backend.
pub open spec fn memory_backend_name(b: MemoryBackend) -> Seq<char> {
    match b {
        MemoryBackend::Disabled => "none"@,
        MemoryBackend::Builtin => "builtin"@,
        MemoryBackend::Bm25 => "bm25"@,
        MemoryBackend::Embedding => "embedding"@,
        MemoryBackend::Hnsw => "hnsw"@,
        MemoryBackend::Tantivy => "tantivy"@,
        MemoryBackend::Qmd => "qmd"@,
    }
}

/// The label of a memory backend.
pub fn memory_backend_label(backend: &MemoryBackend) -> (r: &'static str)
    ensures
        r@ == memory_backend_name(*backend),
{
    match backend {
        MemoryBackend::Disabled => "none",
        MemoryBackend::Builtin => "builtin",
        MemoryBackend::Bm25 => "bm25",
        MemoryBackend::Embedding => "embedding",
        MemoryBackend::Hnsw => "hnsw",
        MemoryBackend::Tantivy => "tantivy",
        MemoryBackend::Qmd => "qmd",
    }
}

/// The label of a memory citation mode.
pub open spec fn memory_citations_name(m: MemoryCitationsMode) -> Seq<char> {
    match m {
        MemoryCitationsMode::Auto => "auto"@,
        MemoryCitationsMode::On => "on"@,
        MemoryCitationsMode::Off => "off"@,
    }
}

/// The label of a memory citation mode.
pub fn memory_citations_label(mode: &MemoryCitationsMode) -> (r: &'static str)
    ensures
        r@ == memory_citations_name(*mode),
{
    match mode {
        MemoryCitationsMode::Auto => "auto",
        MemoryCitationsMode::On => "on",
        MemoryCitationsMode::Off => "off",
    }
}

/// The status shown for a provider: "configured" with a non-empty API key,
/// else "not set".
pub open spec fn provider_status_text(p: Option<ProviderConfig>) -> Seq<char> {
    match p {
        Some(c) => match c.api_key {
            Some(k) => if k@.len() == 0 {
                "not set"@
            } else {
                "configured"@
            },
            None => "not set"@,
        },
        None => "not set"@,
    }
}

/// The status shown for a provider.
pub fn provider_status(provider: &Option<ProviderConfig>) -> (r: &'static str)
    ensures
        r@ == provider_status_text(*provider),
{
    match provider {
        Some(c) => match &c.api_key {
            Some(k) => if k.as_str().is_empty() {
                "not set"
            } else {
                "configured"
            },
            None => "not set",
        },
        None => "not set",
    }
}

/// The Docker binary to run: the configured override, trimmed, when it is
/// not blank; else `docker`.
pub open spec fn docker_binary_name(c: ContainerAgentConfig) -> Seq<char> {
    match c.docker_binary {
        Some(b) => if crate::text::trim(b@).len() > 0 {
            crate::text::trim(b@)
        } else {
            "docker"@
        },
        None => "docker"@,
    }
}

/// The Docker binary to run.
pub fn configured_docker_binary(config: &ContainerAgentConfig) -> (r: String)
    ensures
        r@ == docker_binary_name(*config),
{
    match &config.docker_binary {
        Some(b) => {
            let t = crate::text::trimmed(b.as_str());
            if t.as_str().is_empty() {
                String::from_str("docker")
            } else {
                t
            }
        },
        None => String::from_str("docker"),
    }
}

} // verus!
