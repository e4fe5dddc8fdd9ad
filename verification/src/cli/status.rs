//! `zeptoclaw auth status`: what it prints of each provider's key and
//! OAuth token and of each channel's token. The token store, the list of
//! OAuth-capable providers and the runtime's provider support belong to the
//! `zeptoclaw` runtime; the caller hands over what they report.

use vstd::prelude::*;
use crate::config::ChannelsConfig;
use crate::config::ProviderConfig;
use crate::config::ProvidersConfig;
use crate::config::provider_status;
use crate::config::provider_status_text;
use crate::cli::skills::joined;
use crate::cli::skills::join_strings;
use crate::text::texts;
use crate::text::trim;
use crate::text::trimmed;
use crate::text::decimal;
use crate::text::decimal_text;
use crate::config::bool_text;
use crate::config::GatewayConfig;
use crate::config::ContainerAgentConfig;
use crate::config::ContainerAgentBackend;
use crate::config::RuntimeConfig;
use crate::config::RuntimeType;
use crate::config::MemoryBackend;
use crate::config::MemoryCitationsMode;
use crate::config::memory_backend_name;
use crate::config::memory_backend_label;
use crate::config::memory_citations_name;
use crate::config::memory_citations_label;
use crate::config::HeartbeatConfig;
use crate::config::SkillsConfig;
use crate::cli::tools::ToolConfigFacts;
use crate::cli::tools::tools_summary_spec;
use crate::cli::tools::tools_summary_text;

verus! {

/// What the token store holds for a provider.
pub enum OAuthState {
    /// No token (or no store).
    NoToken,
    /// A token: whether it has expired, whether it has a refresh token, and
    /// how long it has left, in words.
    Token { expired: bool, has_refresh: bool, expires_in: String },
    /// The store could not read the token.
    Failed(String),
}

/// The OAuth part of a provider's line; empty without a token.
pub open spec fn oauth_text(o: OAuthState) -> Seq<char> {
    match o {
        OAuthState::NoToken => Seq::empty(),
        OAuthState::Token { expired, has_refresh, expires_in } => if expired {
            "OAuth (expired"@ + (if has_refresh {
                ", has refresh token"@
            } else {
                Seq::empty()
            }) + ")"@
        } else {
            "OAuth (expires in "@ + expires_in@ + ")"@
        },
        OAuthState::Failed(e) => "OAuth (error: "@ + e@ + ")"@,
    }
}

/// The authentication method of a provider: the configured one, else
/// `api_key`.
pub open spec fn auth_method_text(p: Option<ProviderConfig>) -> Seq<char> {
    match p {
        Some(c) => match c.auth_method {
            Some(m) => m@,
            None => "api_key"@,
        },
        None => "api_key"@,
    }
}

/// A provider's line: its label, its key status, its OAuth status when it
/// has a token, and its method.
pub open spec fn provider_auth_line(label: Seq<char>, p: Option<ProviderConfig>, o: OAuthState) -> Seq<char> {
    let oauth = oauth_text(o);
    if oauth.len() == 0 {
        "  "@ + label + ": "@ + provider_status_text(p) + " [method: "@ + auth_method_text(p) + "]"@
    } else {
        "  "@ + label + ": "@ + provider_status_text(p) + " | "@ + oauth + " [method: "@ + auth_method_text(p) + "]"@
    }
}

fn oauth_string(o: &OAuthState) -> (r: String)
    ensures
        r@ == oauth_text(*o),
{
    match o {
        OAuthState::NoToken => String::new(),
        OAuthState::Token { expired, has_refresh, expires_in } => {
            if *expired {
                let mut s = String::from_str("OAuth (expired");
                if *has_refresh {
                    s.append(", has refresh token");
                } else {
                    assert(s@ + Seq::<char>::empty() =~= s@);
                }
                s.append(")");
                s
            } else {
                let mut s = String::from_str("OAuth (expires in ");
                s.append(expires_in.as_str());
                s.append(")");
                s
            }
        },
        OAuthState::Failed(e) => {
            let mut s = String::from_str("OAuth (error: ");
            s.append(e.as_str());
            s.append(")");
            s
        },
    }
}

/// A provider's line of `auth status`.
pub fn provider_auth_status(label: &str, provider: &Option<ProviderConfig>, oauth: &OAuthState) -> (r: String)
    ensures
        r@ == provider_auth_line(label@, *provider, *oauth),
{
    let o = oauth_string(oauth);
    let mut s = String::from_str("  ");
    s.append(label);
    s.append(": ");
    s.append(provider_status(provider));
    if o.as_str().unicode_len() > 0 {
        s.append(" | ");
        s.append(o.as_str());
    }
    s.append(" [method: ");
    match provider {
        Some(c) => match &c.auth_method {
            Some(m) => s.append(m.as_str()),
            None => s.append("api_key"),
        },
        None => s.append("api_key"),
    }
    s.append("]");
    s
}

/// A channel token's status: not set, or configured with the channel
/// enabled or disabled.
pub open spec fn token_status_text(token: Option<(Seq<char>, bool)>) -> Seq<char> {
    match token {
        Some((t, enabled)) => if t.len() == 0 {
            "not set"@
        } else if enabled {
            "configured (enabled)"@
        } else {
            "configured (disabled)"@
        },
        None => "not set"@,
    }
}

fn token_status(token: &str, enabled: bool) -> (r: &'static str)
    ensures
        r@ == token_status_text(Some((token@, enabled))),
{
    if token.unicode_len() == 0 {
        "not set"
    } else if enabled {
        "configured (enabled)"
    } else {
        "configured (disabled)"
    }
}

/// The providers `auth status` shows, in order, with their labels.
pub open spec fn auth_providers(p: ProvidersConfig) -> Seq<(Seq<char>, Option<ProviderConfig>)> {
    seq![
        ("Anthropic         "@, p.anthropic),
        ("OpenAI            "@, p.openai),
        ("OpenRouter        "@, p.openrouter),
        ("Groq              "@, p.groq),
        ("Gemini            "@, p.gemini),
        ("Zhipu             "@, p.zhipu),
    ]
}

/// The heading of `auth status`, with the token store's failure if any.
pub open spec fn auth_head(store_error: Option<Seq<char>>) -> Seq<Seq<char>> {
    seq!["Authentication Status"@, "====================="@, ""@] + match store_error {
        Some(e) => seq!["OAuth token store unavailable: "@ + e, ""@],
        None => Seq::empty(),
    }
}

/// The providers' lines.
pub open spec fn auth_provider_lines(providers: ProvidersConfig, oauth: Seq<OAuthState>) -> Seq<Seq<char>> {
    let ps = auth_providers(providers);
    Seq::new(6, |i: int| provider_auth_line(ps[i].0, ps[i].1, oauth[i]))
}

/// The lines on OAuth and runtime provider support.
pub open spec fn auth_support_lines(
    oauth_supported: Seq<Seq<char>>,
    runtime_supported: Seq<Seq<char>>,
    unsupported: Seq<Seq<char>>,
) -> Seq<Seq<char>> {
    seq![
        ""@,
        "OAuth-supported providers: "@ + joined(oauth_supported, ", "@),
        ""@,
        "Runtime Provider Support"@,
        "------------------------"@,
        "  Supported: "@ + joined(runtime_supported, ", "@),
    ] + (if unsupported.len() == 0 {
        Seq::empty()
    } else {
        seq!["  Configured but unsupported: "@ + joined(unsupported, ", "@)]
    })
}

/// The channel token lines.
pub open spec fn auth_channel_lines(channels: ChannelsConfig) -> Seq<Seq<char>> {
    seq![
        ""@,
        "Channel Tokens"@,
        "--------------"@,
        "  Telegram: "@ + token_status_text(
            match channels.telegram {
                Some(c) => Some((c.token@, c.enabled)),
                None => None,
            },
        ),
        "  Discord:  "@ + token_status_text(
            match channels.discord {
                Some(c) => Some((c.token@, c.enabled)),
                None => None,
            },
        ),
        "  Slack:    "@ + token_status_text(
            match channels.slack {
                Some(c) => Some((c.bot_token@, c.enabled)),
                None => None,
            },
        ),
        ""@,
    ]
}

/// The lines `auth status` prints. `store_error` is why the token store is
/// unavailable (then no provider has a token); `oauth` holds what the store
/// reports for anthropic, openai, openrouter, groq, gemini and zhipu, in
/// that order.
pub open spec fn auth_status_spec(
    providers: ProvidersConfig,
    channels: ChannelsConfig,
    store_error: Option<Seq<char>>,
    oauth: Seq<OAuthState>,
    oauth_supported: Seq<Seq<char>>,
    runtime_supported: Seq<Seq<char>>,
    unsupported: Seq<Seq<char>>,
) -> Seq<Seq<char>> {
    auth_head(store_error) + auth_provider_lines(providers, oauth) + auth_support_lines(
        oauth_supported,
        runtime_supported,
        unsupported,
    ) + auth_channel_lines(channels)
}

fn push_text(lines: &mut Vec<String>, t: &str)
    ensures
        texts(final(lines)@) == texts(old(lines)@).push(t@),
{
    lines.push(String::from_str(t));
    assert(texts(lines@) =~= texts(old(lines)@).push(t@));
}

fn push_joined(lines: &mut Vec<String>, prefix: &str, items: &Vec<String>)
    ensures
        texts(final(lines)@) == texts(old(lines)@).push(prefix@ + joined(texts(items@), ", "@)),
{
    let mut s = String::from_str(prefix);
    s.append(join_strings(items, ", ").as_str());
    lines.push(s);
    assert(texts(lines@) =~= texts(old(lines)@).push(prefix@ + joined(texts(items@), ", "@)));
}

fn push_owned(lines: &mut Vec<String>, s: String)
    ensures
        texts(final(lines)@) == texts(old(lines)@).push(s@),
{
    lines.push(s);
    assert(texts(lines@) =~= texts(old(lines)@).push(s@));
}

fn push_token(lines: &mut Vec<String>, prefix: &str, token: Option<(&str, bool)>)
    ensures
        texts(final(lines)@) == texts(old(lines)@).push(
            prefix@ + token_status_text(
                match token {
                    Some((t, e)) => Some((t@, e)),
                    None => None,
                },
            ),
        ),
{
    let st = match token {
        Some((t, e)) => token_status(t, e),
        None => "not set",
    };
    let mut s = String::from_str(prefix);
    s.append(st);
    push_owned(lines, s);
}

fn push_head(lines: &mut Vec<String>, store_error: Option<&str>)
    ensures
        texts(final(lines)@) == texts(old(lines)@) + auth_head(
            match store_error {
                Some(e) => Some(e@),
                None => None,
            },
        ),
{
    let ghost l0 = texts(lines@);
    push_text(lines, "Authentication Status");
    push_text(lines, "=====================");
    push_text(lines, "");
    let ghost l1 = texts(lines@);
    if let Some(e) = store_error {
        let mut s = String::from_str("OAuth token store unavailable: ");
        s.append(e);
        push_owned(lines, s);
        push_text(lines, "");
        assert(texts(lines@) =~= l1 + seq!["OAuth token store unavailable: "@ + e@, ""@]);
    }
    assert(texts(lines@) =~= l0 + auth_head(
        match store_error {
            Some(e) => Some(e@),
            None => None,
        },
    ));
}

fn push_providers(lines: &mut Vec<String>, providers: &ProvidersConfig, oauth: &Vec<OAuthState>)
    requires
        oauth@.len() == 6,
    ensures
        texts(final(lines)@) == texts(old(lines)@) + auth_provider_lines(*providers, oauth@),
{
    let ghost l0 = texts(lines@);
    let ghost ps = auth_providers(*providers);
    push_owned(lines, provider_auth_status("Anthropic         ", &providers.anthropic, &oauth[0]));
    push_owned(lines, provider_auth_status("OpenAI            ", &providers.openai, &oauth[1]));
    push_owned(lines, provider_auth_status("OpenRouter        ", &providers.openrouter, &oauth[2]));
    push_owned(lines, provider_auth_status("Groq              ", &providers.groq, &oauth[3]));
    push_owned(lines, provider_auth_status("Gemini            ", &providers.gemini, &oauth[4]));
    push_owned(lines, provider_auth_status("Zhipu             ", &providers.zhipu, &oauth[5]));
    assert(texts(lines@) =~= l0 + auth_provider_lines(*providers, oauth@));
}

fn push_support(
    lines: &mut Vec<String>,
    oauth_supported: &Vec<String>,
    runtime_supported: &Vec<String>,
    unsupported: &Vec<String>,
)
    ensures
        texts(final(lines)@) == texts(old(lines)@) + auth_support_lines(
            texts(oauth_supported@),
            texts(runtime_supported@),
            texts(unsupported@),
        ),
{
    let ghost l0 = texts(lines@);
    push_text(lines, "");
    push_joined(lines, "OAuth-supported providers: ", oauth_supported);
    push_text(lines, "");
    push_text(lines, "Runtime Provider Support");
    push_text(lines, "------------------------");
    push_joined(lines, "  Supported: ", runtime_supported);
    let ghost l1 = texts(lines@);
    if unsupported.len() > 0 {
        push_joined(lines, "  Configured but unsupported: ", unsupported);
    }
    assert(texts(lines@) =~= l0 + auth_support_lines(
        texts(oauth_supported@),
        texts(runtime_supported@),
        texts(unsupported@),
    ));
}

fn push_channels(lines: &mut Vec<String>, channels: &ChannelsConfig)
    ensures
        texts(final(lines)@) == texts(old(lines)@) + auth_channel_lines(*channels),
{
    let ghost l0 = texts(lines@);
    push_text(lines, "");
    push_text(lines, "Channel Tokens");
    push_text(lines, "--------------");
    push_token(
        lines,
        "  Telegram: ",
        match &channels.telegram {
            Some(c) => Some((c.token.as_str(), c.enabled)),
            None => None,
        },
    );
    push_token(
        lines,
        "  Discord:  ",
        match &channels.discord {
            Some(c) => Some((c.token.as_str(), c.enabled)),
            None => None,
        },
    );
    push_token(
        lines,
        "  Slack:    ",
        match &channels.slack {
            Some(c) => Some((c.bot_token.as_str(), c.enabled)),
            None => None,
        },
    );
    push_text(lines, "");
    assert(texts(lines@) =~= l0 + auth_channel_lines(*channels));
}

/// The lines of `auth status`, given what the token store and the runtime
/// report (see `auth_status_spec`).
pub fn auth_status_lines(
    providers: &ProvidersConfig,
    channels: &ChannelsConfig,
    store_error: Option<&str>,
    oauth: &Vec<OAuthState>,
    oauth_supported: &Vec<String>,
    runtime_supported: &Vec<String>,
    unsupported: &Vec<String>,
) -> (r: Vec<String>)
    requires
        oauth@.len() == 6,
    ensures
        texts(r@) == auth_status_spec(
            *providers,
            *channels,
            match store_error {
                Some(e) => Some(e@),
                None => None,
            },
            oauth@,
            texts(oauth_supported@),
            texts(runtime_supported@),
            texts(unsupported@),
        ),
{
    let mut lines: Vec<String> = Vec::new();
    assert(texts(lines@) =~= Seq::<Seq<char>>::empty());
    push_head(&mut lines, store_error);
    push_providers(&mut lines, providers, oauth);
    push_support(&mut lines, oauth_supported, runtime_supported, unsupported);
    push_channels(&mut lines, channels);
    lines
}


/// What the long-term memory store reports.
pub enum LongTermState {
    /// There is no data file.
    NoFile,
    /// The data file could not be read.
    Unreadable,
    /// The store holds `count` entries in these categories.
    Loaded { count: usize, categories: Vec<String> },
}

/// What `status` shows besides the configuration values themselves: paths
/// and whether they exist, values already written in their own notation
/// (paths, the temperature, the minimum score), and what the runtime, the
/// stores and the provider registry report.
pub struct StatusFacts {
    pub version: String,
    pub config_dir: String,
    pub config_file: String,
    pub config_exists: bool,
    pub workspace_path: String,
    pub workspace_exists: bool,
    pub sessions_path: String,
    pub sessions_exists: bool,
    /// The number of entries in the sessions directory (shown when it
    /// exists).
    pub session_count: usize,
    pub model: String,
    pub max_tokens: u32,
    pub temperature: String,
    pub max_tool_iterations: u32,
    pub gateway: GatewayConfig,
    pub container_agent: ContainerAgentConfig,
    pub runtime: RuntimeConfig,
    /// The container runtimes found on this machine.
    pub available_runtimes: Vec<String>,
    pub memory_backend: MemoryBackend,
    pub memory_citations: MemoryCitationsMode,
    pub include_default_memory: bool,
    pub memory_max_results: u32,
    pub memory_min_score: String,
    pub long_term: LongTermState,
    pub heartbeat: HeartbeatConfig,
    pub heartbeat_file: String,
    pub skills: SkillsConfig,
    pub skills_workspace_dir: String,
    /// The provider the runtime would use, if any.
    pub runtime_provider: Option<String>,
    /// Configured providers that the runtime does not support.
    pub unsupported: Vec<String>,
    /// The providers the runtime supports.
    pub runtime_supported: Vec<String>,
    pub tools: ToolConfigFacts,
    pub coding_on: bool,
}

/// "yes" or "no".
pub open spec fn yes_no(b: bool) -> Seq<char> {
    if b {
        "yes"@
    } else {
        "no"@
    }
}

/// The label of a container agent backend.
pub open spec fn container_backend_label(b: ContainerAgentBackend) -> Seq<char> {
    match b {
        ContainerAgentBackend::Auto => "auto"@,
        ContainerAgentBackend::Docker => "docker"@,
        ContainerAgentBackend::Apple => "apple"@,
    }
}

/// The name of a runtime type.
pub open spec fn runtime_type_text(t: RuntimeType) -> Seq<char> {
    match t {
        RuntimeType::Native => "Native"@,
        RuntimeType::Docker => "Docker"@,
        RuntimeType::AppleContainer => "AppleContainer"@,
    }
}

/// A line that is shown only for a non-empty list.
pub open spec fn list_line(prefix: Seq<char>, items: Seq<Seq<char>>) -> Seq<Seq<char>> {
    if items.len() == 0 {
        Seq::empty()
    } else {
        seq![prefix + joined(items, ", "@)]
    }
}

/// The heading, the version, and the configuration, workspace and
/// sessions sections; the session count is shown when the directory
/// exists.
pub open spec fn status_head_lines(f: StatusFacts) -> Seq<Seq<char>> {
    seq![
        "ZeptoClaw Status"@,
        "================"@,
        ""@,
        "Version: "@ + f.version@,
        ""@,
        "Configuration"@,
        "-------------"@,
        "  Config directory: "@ + f.config_dir@,
        "  Config file:      "@ + f.config_file@,
        "  Config exists:    "@ + bool_text(f.config_exists),
        ""@,
        "Workspace"@,
        "---------"@,
        "  Path:   "@ + f.workspace_path@,
        "  Exists: "@ + bool_text(f.workspace_exists),
        ""@,
        "Sessions"@,
        "--------"@,
        "  Path:   "@ + f.sessions_path@,
        "  Exists: "@ + bool_text(f.sessions_exists),
    ] + (if f.sessions_exists {
        seq!["  Count:  "@ + decimal(f.session_count as nat)]
    } else {
        Seq::empty()
    }) + seq![""@]
}

/// The agent defaults and gateway sections.
pub open spec fn status_agent_lines(f: StatusFacts) -> Seq<Seq<char>> {
    seq![
        "Agent Defaults"@,
        "--------------"@,
        "  Model:              "@ + f.model@,
        "  Max tokens:         "@ + decimal(f.max_tokens as nat),
        "  Temperature:        "@ + f.temperature@,
        "  Max tool iterations: "@ + decimal(f.max_tool_iterations as nat),
        ""@,
        "Gateway"@,
        "-------"@,
        "  Host: "@ + f.gateway.host@,
        "  Port: "@ + decimal(f.gateway.port as nat),
        ""@,
    ]
}

/// The container agent section; the docker binary override is shown when
/// it is set and not blank.
pub open spec fn status_container_lines(c: ContainerAgentConfig) -> Seq<Seq<char>> {
    seq![
        "Container Agent"@,
        "---------------"@,
        "  Backend: "@ + container_backend_label(c.backend),
        "  Image: "@ + c.image@,
    ] + match c.docker_binary {
        Some(b) => if trim(b@).len() > 0 {
            seq!["  Docker binary override: "@ + b@]
        } else {
            Seq::empty()
        },
        None => Seq::empty(),
    } + seq![
        "  Timeout: "@ + decimal(c.timeout_secs as nat) + "s"@,
        "  Max concurrent: "@ + decimal(c.max_concurrent as nat),
        ""@,
    ]
}

/// The runtime section.
pub open spec fn status_runtime_lines(f: StatusFacts) -> Seq<Seq<char>> {
    seq![
        "Runtime"@,
        "-------"@,
        "  Type: "@ + runtime_type_text(f.runtime.runtime_type),
        "  Native fallback: "@ + (if f.runtime.allow_fallback_to_native {
            "enabled (opt-in)"@
        } else {
            "disabled (fail-closed)"@
        }),
        "  Available: "@ + joined(texts(f.available_runtimes@), ", "@),
        ""@,
    ]
}

/// The long-term memory lines.
pub open spec fn long_term_lines(l: LongTermState) -> Seq<Seq<char>> {
    match l {
        LongTermState::NoFile => seq!["  Long-term entries: 0 (no data file)"@],
        LongTermState::Unreadable => seq!["  Long-term memory: error reading"@],
        LongTermState::Loaded { count, categories } => seq!["  Long-term entries: "@ + decimal(count as nat)]
            + list_line("  Categories: "@, texts(categories@)),
    }
}

/// The memory section.
pub open spec fn status_memory_lines(f: StatusFacts) -> Seq<Seq<char>> {
    seq![
        "Memory"@,
        "------"@,
        "  Backend: "@ + memory_backend_name(f.memory_backend),
        "  Citations: "@ + memory_citations_name(f.memory_citations),
        "  Include default files: "@ + yes_no(f.include_default_memory),
        "  Max results: "@ + decimal(f.memory_max_results as nat),
        "  Min score: "@ + f.memory_min_score@,
    ] + long_term_lines(f.long_term) + seq![""@]
}

/// The heartbeat and skills sections; the always-load and disabled lists
/// are shown when not empty.
pub open spec fn status_heartbeat_skills_lines(f: StatusFacts) -> Seq<Seq<char>> {
    seq![
        "Heartbeat"@,
        "---------"@,
        "  Enabled: "@ + yes_no(f.heartbeat.enabled),
        "  Interval: "@ + decimal(f.heartbeat.interval_secs as nat) + "s"@,
        "  File: "@ + f.heartbeat_file@,
        ""@,
        "Skills"@,
        "------"@,
        "  Enabled: "@ + yes_no(f.skills.enabled),
        "  Workspace dir: "@ + f.skills_workspace_dir@,
    ] + list_line("  Always load: "@, texts(f.skills.always_load@)) + list_line(
        "  Disabled: "@,
        texts(f.skills.disabled@),
    ) + seq![""@]
}

/// The provider lines and the tools summary.
pub open spec fn status_provider_lines(f: StatusFacts) -> Seq<Seq<char>> {
    seq![
        "Runtime provider: "@ + match f.runtime_provider {
            Some(n) => n@,
            None => "not configured"@,
        },
    ] + list_line("Configured but unsupported: "@, texts(f.unsupported@)) + seq![
        "Runtime supports: "@ + joined(texts(f.runtime_supported@), ", "@),
        ""@,
        "Available Tools"@,
        "---------------"@,
        tools_summary_spec(f.tools, f.coding_on),
        ""@,
    ]
}

/// The lines `status` prints, section by section.
pub open spec fn status_spec(f: StatusFacts) -> Seq<Seq<char>> {
    status_head_lines(f) + status_agent_lines(f) + status_container_lines(f.container_agent)
        + status_runtime_lines(f) + status_memory_lines(f) + status_heartbeat_skills_lines(f)
        + status_provider_lines(f)
}

fn push_with(lines: &mut Vec<String>, prefix: &str, value: &str)
    ensures
        texts(final(lines)@) == texts(old(lines)@).push(prefix@ + value@),
{
    let mut s = String::from_str(prefix);
    s.append(value);
    push_owned(lines, s);
}

fn push_number(lines: &mut Vec<String>, prefix: &str, n: u64, suffix: &str)
    ensures
        texts(final(lines)@) == texts(old(lines)@).push(prefix@ + decimal(n as nat) + suffix@),
{
    let mut s = String::from_str(prefix);
    s.append(decimal_text(n).as_str());
    s.append(suffix);
    push_owned(lines, s);
}

fn push_count(lines: &mut Vec<String>, prefix: &str, n: u64)
    ensures
        texts(final(lines)@) == texts(old(lines)@).push(prefix@ + decimal(n as nat)),
{
    let mut s = String::from_str(prefix);
    s.append(decimal_text(n).as_str());
    push_owned(lines, s);
}

fn push_list_line(lines: &mut Vec<String>, prefix: &str, items: &Vec<String>)
    ensures
        texts(final(lines)@) == texts(old(lines)@) + list_line(prefix@, texts(items@)),
{
    let ghost l0 = texts(lines@);
    if items.len() > 0 {
        push_joined(lines, prefix, items);
    }
    assert(texts(lines@) =~= l0 + list_line(prefix@, texts(items@)));
}

fn true_false(b: bool) -> (r: &'static str)
    ensures
        r@ == bool_text(b),
{
    if b {
        "true"
    } else {
        "false"
    }
}

fn yes_no_text(b: bool) -> (r: &'static str)
    ensures
        r@ == yes_no(b),
{
    if b {
        "yes"
    } else {
        "no"
    }
}

fn push_status_head(lines: &mut Vec<String>, f: &StatusFacts)
    ensures
        texts(final(lines)@) == texts(old(lines)@) + status_head_lines(*f),
{
    let ghost l0 = texts(lines@);
    push_text(lines, "ZeptoClaw Status");
    push_text(lines, "================");
    push_text(lines, "");
    push_with(lines, "Version: ", f.version.as_str());
    push_text(lines, "");
    push_text(lines, "Configuration");
    push_text(lines, "-------------");
    push_with(lines, "  Config directory: ", f.config_dir.as_str());
    push_with(lines, "  Config file:      ", f.config_file.as_str());
    push_with(lines, "  Config exists:    ", true_false(f.config_exists));
    push_text(lines, "");
    push_text(lines, "Workspace");
    push_text(lines, "---------");
    push_with(lines, "  Path:   ", f.workspace_path.as_str());
    push_with(lines, "  Exists: ", true_false(f.workspace_exists));
    push_text(lines, "");
    push_text(lines, "Sessions");
    push_text(lines, "--------");
    push_with(lines, "  Path:   ", f.sessions_path.as_str());
    push_with(lines, "  Exists: ", true_false(f.sessions_exists));
    let ghost l1 = texts(lines@);
    if f.sessions_exists {
        push_count(lines, "  Count:  ", f.session_count as u64);
    }
    push_text(lines, "");
    assert(texts(lines@) =~= l0 + status_head_lines(*f));
}

fn push_status_agent(lines: &mut Vec<String>, f: &StatusFacts)
    ensures
        texts(final(lines)@) == texts(old(lines)@) + status_agent_lines(*f),
{
    let ghost l0 = texts(lines@);
    push_text(lines, "Agent Defaults");
    push_text(lines, "--------------");
    push_with(lines, "  Model:              ", f.model.as_str());
    push_count(lines, "  Max tokens:         ", f.max_tokens as u64);
    push_with(lines, "  Temperature:        ", f.temperature.as_str());
    push_count(lines, "  Max tool iterations: ", f.max_tool_iterations as u64);
    push_text(lines, "");
    push_text(lines, "Gateway");
    push_text(lines, "-------");
    push_with(lines, "  Host: ", f.gateway.host.as_str());
    push_count(lines, "  Port: ", f.gateway.port as u64);
    push_text(lines, "");
    assert(texts(lines@) =~= l0 + status_agent_lines(*f));
}

fn container_backend_text(b: &ContainerAgentBackend) -> (r: &'static str)
    ensures
        r@ == container_backend_label(*b),
{
    match b {
        ContainerAgentBackend::Auto => "auto",
        ContainerAgentBackend::Docker => "docker",
        ContainerAgentBackend::Apple => "apple",
    }
}

fn push_status_container(lines: &mut Vec<String>, c: &ContainerAgentConfig)
    ensures
        texts(final(lines)@) == texts(old(lines)@) + status_container_lines(*c),
{
    let ghost l0 = texts(lines@);
    push_text(lines, "Container Agent");
    push_text(lines, "---------------");
    push_with(lines, "  Backend: ", container_backend_text(&c.backend));
    push_with(lines, "  Image: ", c.image.as_str());
    let ghost l1 = texts(lines@);
    if let Some(b) = &c.docker_binary {
        let t = trimmed(b.as_str());
        if t.as_str().unicode_len() > 0 {
            push_with(lines, "  Docker binary override: ", b.as_str());
        }
    }
    let ghost l2 = texts(lines@);
    push_number(lines, "  Timeout: ", c.timeout_secs, "s");
    push_count(lines, "  Max concurrent: ", c.max_concurrent as u64);
    push_text(lines, "");
    assert(texts(lines@) =~= l0 + status_container_lines(*c));
}

fn runtime_type_name(t: &RuntimeType) -> (r: &'static str)
    ensures
        r@ == runtime_type_text(*t),
{
    match t {
        RuntimeType::Native => "Native",
        RuntimeType::Docker => "Docker",
        RuntimeType::AppleContainer => "AppleContainer",
    }
}

fn push_status_runtime(lines: &mut Vec<String>, f: &StatusFacts)
    ensures
        texts(final(lines)@) == texts(old(lines)@) + status_runtime_lines(*f),
{
    let ghost l0 = texts(lines@);
    push_text(lines, "Runtime");
    push_text(lines, "-------");
    push_with(lines, "  Type: ", runtime_type_name(&f.runtime.runtime_type));
    push_with(
        lines,
        "  Native fallback: ",
        if f.runtime.allow_fallback_to_native {
            "enabled (opt-in)"
        } else {
            "disabled (fail-closed)"
        },
    );
    push_joined(lines, "  Available: ", &f.available_runtimes);
    push_text(lines, "");
    assert(texts(lines@) =~= l0 + status_runtime_lines(*f));
}

fn push_status_memory(lines: &mut Vec<String>, f: &StatusFacts)
    ensures
        texts(final(lines)@) == texts(old(lines)@) + status_memory_lines(*f),
{
    let ghost l0 = texts(lines@);
    push_text(lines, "Memory");
    push_text(lines, "------");
    push_with(lines, "  Backend: ", memory_backend_label(&f.memory_backend));
    push_with(lines, "  Citations: ", memory_citations_label(&f.memory_citations));
    push_with(lines, "  Include default files: ", yes_no_text(f.include_default_memory));
    push_count(lines, "  Max results: ", f.memory_max_results as u64);
    push_with(lines, "  Min score: ", f.memory_min_score.as_str());
    let ghost l1 = texts(lines@);
    match &f.long_term {
        LongTermState::NoFile => push_text(lines, "  Long-term entries: 0 (no data file)"),
        LongTermState::Unreadable => push_text(lines, "  Long-term memory: error reading"),
        LongTermState::Loaded { count, categories } => {
            push_count(lines, "  Long-term entries: ", *count as u64);
            push_list_line(lines, "  Categories: ", categories);
        },
    }
    assert(texts(lines@) =~= l1 + long_term_lines(f.long_term));
    push_text(lines, "");
    assert(texts(lines@) =~= l0 + status_memory_lines(*f));
}

fn push_status_heartbeat_skills(lines: &mut Vec<String>, f: &StatusFacts)
    ensures
        texts(final(lines)@) == texts(old(lines)@) + status_heartbeat_skills_lines(*f),
{
    let ghost l0 = texts(lines@);
    push_text(lines, "Heartbeat");
    push_text(lines, "---------");
    push_with(lines, "  Enabled: ", yes_no_text(f.heartbeat.enabled));
    push_number(lines, "  Interval: ", f.heartbeat.interval_secs, "s");
    push_with(lines, "  File: ", f.heartbeat_file.as_str());
    push_text(lines, "");
    push_text(lines, "Skills");
    push_text(lines, "------");
    push_with(lines, "  Enabled: ", yes_no_text(f.skills.enabled));
    push_with(lines, "  Workspace dir: ", f.skills_workspace_dir.as_str());
    let ghost l1 = texts(lines@);
    push_list_line(lines, "  Always load: ", &f.skills.always_load);
    push_list_line(lines, "  Disabled: ", &f.skills.disabled);
    push_text(lines, "");
    assert(texts(lines@) =~= l0 + status_heartbeat_skills_lines(*f));
}

fn push_status_providers(lines: &mut Vec<String>, f: &StatusFacts)
    ensures
        texts(final(lines)@) == texts(old(lines)@) + status_provider_lines(*f),
{
    let ghost l0 = texts(lines@);
    match &f.runtime_provider {
        Some(n) => push_with(lines, "Runtime provider: ", n.as_str()),
        None => push_with(lines, "Runtime provider: ", "not configured"),
    }
    push_list_line(lines, "Configured but unsupported: ", &f.unsupported);
    let ghost l1 = texts(lines@);
    push_joined(lines, "Runtime supports: ", &f.runtime_supported);
    push_text(lines, "");
    push_text(lines, "Available Tools");
    push_text(lines, "---------------");
    push_owned(lines, tools_summary_text(&f.tools, f.coding_on));
    push_text(lines, "");
    assert(texts(lines@) =~= l0 + status_provider_lines(*f));
}

/// The lines of `status` (see `status_spec`).
pub fn status_lines(f: &StatusFacts) -> (r: Vec<String>)
    ensures
        texts(r@) == status_spec(*f),
{
    let mut lines: Vec<String> = Vec::new();
    assert(texts(lines@) =~= Seq::<Seq<char>>::empty());
    push_status_head(&mut lines, f);
    push_status_agent(&mut lines, f);
    push_status_container(&mut lines, &f.container_agent);
    push_status_runtime(&mut lines, f);
    push_status_memory(&mut lines, f);
    push_status_heartbeat_skills(&mut lines, f);
    push_status_providers(&mut lines, f);
    assert(texts(lines@) =~= status_spec(*f));
    lines
}

} // verus!
