use zeptoclaw::cli::status::auth_status_lines;
use zeptoclaw::cli::status::provider_auth_status;
use zeptoclaw::cli::status::status_lines;
use zeptoclaw::cli::status::LongTermState;
use zeptoclaw::cli::status::OAuthState;
use zeptoclaw::cli::status::StatusFacts;
use zeptoclaw::cli::tools::tools_summary_text;
use zeptoclaw::cli::tools::ToolConfigFacts;
use zeptoclaw::config::ChannelsConfig;
use zeptoclaw::config::ContainerAgentConfig;
use zeptoclaw::config::GatewayConfig;
use zeptoclaw::config::HeartbeatConfig;
use zeptoclaw::config::MemoryBackend;
use zeptoclaw::config::MemoryCitationsMode;
use zeptoclaw::config::ProviderConfig;
use zeptoclaw::config::ProvidersConfig;
use zeptoclaw::config::RuntimeConfig;
use zeptoclaw::config::SkillsConfig;
use zeptoclaw::config::TelegramConfig;

fn no_tools() -> ToolConfigFacts {
    ToolConfigFacts {
        whatsapp_phone_number_id: None,
        whatsapp_access_token: None,
        google_sheets_access_token: None,
        google_sheets_service_account_base64: None,
        google_access_token: None,
        google_client_id: None,
        telegram_enabled: None,
        slack_enabled: None,
        discord_enabled: None,
        r8r_api_url_set: false,
    }
}

fn facts(long_term: LongTermState, sessions_exists: bool) -> StatusFacts {
    StatusFacts {
        version: "0.5.0".to_string(),
        config_dir: "\"/home/u/.zeptoclaw\"".to_string(),
        config_file: "\"/home/u/.zeptoclaw/config.json\"".to_string(),
        config_exists: true,
        workspace_path: "\"/home/u/.zeptoclaw/workspace\"".to_string(),
        workspace_exists: false,
        sessions_path: "\"/home/u/.zeptoclaw/sessions\"".to_string(),
        sessions_exists,
        session_count: 3,
        model: "model-a".to_string(),
        max_tokens: 8192,
        temperature: "0.7".to_string(),
        max_tool_iterations: 20,
        gateway: GatewayConfig::default(),
        container_agent: ContainerAgentConfig::default(),
        runtime: RuntimeConfig::default(),
        available_runtimes: vec!["native".to_string(), "docker".to_string()],
        memory_backend: MemoryBackend::Builtin,
        memory_citations: MemoryCitationsMode::Auto,
        include_default_memory: true,
        memory_max_results: 6,
        memory_min_score: "0.2".to_string(),
        long_term,
        heartbeat: HeartbeatConfig::default(),
        heartbeat_file: "\"/w/HEARTBEAT.md\"".to_string(),
        skills: SkillsConfig::default(),
        skills_workspace_dir: "\"/w/skills\"".to_string(),
        runtime_provider: None,
        unsupported: vec![],
        runtime_supported: vec!["anthropic".to_string(), "openai".to_string()],
        tools: no_tools(),
        coding_on: false,
    }
}

#[test]
fn test_status_lines_sections() {
    let lines = status_lines(&facts(LongTermState::NoFile, true));
    let expected_head: Vec<&str> = vec![
        "ZeptoClaw Status",
        "================",
        "",
        "Version: 0.5.0",
        "",
        "Configuration",
        "-------------",
        "  Config directory: \"/home/u/.zeptoclaw\"",
        "  Config file:      \"/home/u/.zeptoclaw/config.json\"",
        "  Config exists:    true",
        "",
        "Workspace",
        "---------",
        "  Path:   \"/home/u/.zeptoclaw/workspace\"",
        "  Exists: false",
        "",
        "Sessions",
        "--------",
        "  Path:   \"/home/u/.zeptoclaw/sessions\"",
        "  Exists: true",
        "  Count:  3",
        "",
        "Agent Defaults",
        "--------------",
        "  Model:              model-a",
        "  Max tokens:         8192",
        "  Temperature:        0.7",
        "  Max tool iterations: 20",
        "",
        "Gateway",
        "-------",
        "  Host: 0.0.0.0",
        "  Port: 8080",
        "",
        "Container Agent",
        "---------------",
        "  Backend: auto",
        "  Image: zeptoclaw:latest",
        "  Timeout: 300s",
        "  Max concurrent: 5",
        "",
        "Runtime",
        "-------",
        "  Type: Native",
        "  Native fallback: disabled (fail-closed)",
        "  Available: native, docker",
        "",
        "Memory",
        "------",
        "  Backend: builtin",
        "  Citations: auto",
        "  Include default files: yes",
        "  Max results: 6",
        "  Min score: 0.2",
        "  Long-term entries: 0 (no data file)",
        "",
        "Heartbeat",
        "---------",
        "  Enabled: no",
        "  Interval: 1800s",
        "  File: \"/w/HEARTBEAT.md\"",
        "",
        "Skills",
        "------",
        "  Enabled: yes",
        "  Workspace dir: \"/w/skills\"",
        "",
        "Runtime provider: not configured",
        "Runtime supports: anthropic, openai",
        "",
        "Available Tools",
        "---------------",
    ];
    assert_eq!(lines.len(), expected_head.len() + 2);
    for (i, e) in expected_head.iter().enumerate() {
        assert_eq!(lines[i], *e, "line {}", i);
    }
    assert_eq!(lines[expected_head.len()], tools_summary_text(&no_tools(), false));
    assert_eq!(lines[expected_head.len() + 1], "");
}

#[test]
fn test_status_lines_optional_lines() {
    let mut f = facts(
        LongTermState::Loaded {
            count: 4,
            categories: vec!["user".to_string(), "project".to_string()],
        },
        false,
    );
    f.container_agent.docker_binary = Some("  ".to_string());
    f.skills.always_load = vec!["github".to_string()];
    f.runtime_provider = Some("anthropic".to_string());
    f.unsupported = vec!["zhipu".to_string()];
    f.runtime.allow_fallback_to_native = true;
    let lines = status_lines(&f);
    assert!(!lines.iter().any(|l| l.starts_with("  Count:")));
    assert!(!lines.iter().any(|l| l.contains("Docker binary override")));
    assert!(lines.contains(&"  Native fallback: enabled (opt-in)".to_string()));
    assert!(lines.contains(&"  Long-term entries: 4".to_string()));
    assert!(lines.contains(&"  Categories: user, project".to_string()));
    assert!(lines.contains(&"  Always load: github".to_string()));
    assert!(!lines.iter().any(|l| l.starts_with("  Disabled:")));
    assert!(lines.contains(&"Runtime provider: anthropic".to_string()));
    assert!(lines.contains(&"Configured but unsupported: zhipu".to_string()));

    f.container_agent.docker_binary = Some("/usr/local/bin/docker".to_string());
    f.long_term = LongTermState::Unreadable;
    let lines = status_lines(&f);
    assert!(lines.contains(&"  Docker binary override: /usr/local/bin/docker".to_string()));
    assert!(lines.contains(&"  Long-term memory: error reading".to_string()));
    assert!(!lines.iter().any(|l| l.starts_with("  Long-term entries")));
}

#[test]
fn test_provider_auth_status_lines() {
    let key = Some(ProviderConfig {
        api_key: Some("sk-test".to_string()),
        api_base: None,
        auth_method: Some("auto".to_string()),
    });
    assert_eq!(
        provider_auth_status("Groq              ", &key, &OAuthState::NoToken),
        "  Groq              : configured [method: auto]"
    );
    let expired = OAuthState::Token {
        expired: true,
        has_refresh: true,
        expires_in: String::new(),
    };
    assert_eq!(
        provider_auth_status("OpenAI            ", &None, &expired),
        "  OpenAI            : not set | OAuth (expired, has refresh token) [method: api_key]"
    );
    let live = OAuthState::Token {
        expired: false,
        has_refresh: false,
        expires_in: "2h 5m".to_string(),
    };
    assert_eq!(
        provider_auth_status("Gemini            ", &None, &live),
        "  Gemini            : not set | OAuth (expires in 2h 5m) [method: api_key]"
    );
    assert_eq!(
        provider_auth_status("Zhipu             ", &None, &OAuthState::Failed("locked".to_string())),
        "  Zhipu             : not set | OAuth (error: locked) [method: api_key]"
    );
}

#[test]
fn test_auth_status_lines_layout() {
    let mut providers = ProvidersConfig::default();
    providers.openai = Some(ProviderConfig {
        api_key: Some(String::new()),
        api_base: None,
        auth_method: None,
    });
    let mut channels = ChannelsConfig::default();
    channels.telegram = Some(TelegramConfig {
        enabled: false,
        token: "tok".to_string(),
        allow_from: vec![],
        deny_by_default: false,
    });
    let oauth = vec![
        OAuthState::NoToken,
        OAuthState::NoToken,
        OAuthState::NoToken,
        OAuthState::NoToken,
        OAuthState::NoToken,
        OAuthState::NoToken,
    ];
    let lines = auth_status_lines(
        &providers,
        &channels,
        Some("no keyring"),
        &oauth,
        &vec!["anthropic".to_string()],
        &vec!["anthropic".to_string(), "openai".to_string()],
        &vec![],
    );
    let expected: Vec<&str> = vec![
        "Authentication Status",
        "=====================",
        "",
        "OAuth token store unavailable: no keyring",
        "",
        "  Anthropic         : not set [method: api_key]",
        "  OpenAI            : not set [method: api_key]",
        "  OpenRouter        : not set [method: api_key]",
        "  Groq              : not set [method: api_key]",
        "  Gemini            : not set [method: api_key]",
        "  Zhipu             : not set [method: api_key]",
        "",
        "OAuth-supported providers: anthropic",
        "",
        "Runtime Provider Support",
        "------------------------",
        "  Supported: anthropic, openai",
        "",
        "Channel Tokens",
        "--------------",
        "  Telegram: configured (disabled)",
        "  Discord:  not set",
        "  Slack:    not set",
        "",
    ];
    assert_eq!(lines, expected);
}
