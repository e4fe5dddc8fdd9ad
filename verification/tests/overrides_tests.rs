use zeptoclaw::config::ChannelsConfig;
use zeptoclaw::config::GatewayConfig;
use zeptoclaw::config::HeartbeatConfig;
use zeptoclaw::config::MemoryBackend;
use zeptoclaw::config::MemoryCitationsMode;
use zeptoclaw::config::ProviderConfig;
use zeptoclaw::config::ProvidersConfig;
use zeptoclaw::config::SkillsConfig;
use zeptoclaw::config::TelegramConfig;
use zeptoclaw::config::ToolsConfig;
use zeptoclaw::overrides::agent_overrides;
use zeptoclaw::overrides::comma_list;
use zeptoclaw::overrides::env_var;
use zeptoclaw::overrides::memory_overrides;
use zeptoclaw::overrides::parse_bool;
use zeptoclaw::overrides::parse_citations;
use zeptoclaw::overrides::parse_memory_backend;
use zeptoclaw::overrides::parse_unsigned;

fn env(pairs: &[(&str, &str)]) -> Vec<(String, String)> {
    pairs.iter().map(|(k, v)| (k.to_string(), v.to_string())).collect()
}

#[test]
fn test_env_override() {
    let vars = env(&[
        ("ZEPTOCLAW_AGENTS_DEFAULTS_MODEL", "test-model"),
        ("ZEPTOCLAW_AGENTS_DEFAULTS_MAX_TOKENS", "1000"),
        ("BRAVE_API_KEY", "test-brave-key"),
        ("ZEPTOCLAW_TOOLS_WEB_SEARCH_MAX_RESULTS", "9"),
        ("ZEPTOCLAW_MEMORY_BACKEND", "none"),
        ("ZEPTOCLAW_MEMORY_CITATIONS", "on"),
        ("ZEPTOCLAW_MEMORY_MAX_RESULTS", "12"),
        ("ZEPTOCLAW_MEMORY_MIN_SCORE", "0.55"),
        ("ZEPTOCLAW_MEMORY_INCLUDE_DEFAULT_MEMORY", "false"),
        ("ZEPTOCLAW_MEMORY_EXTRA_PATHS", "notes,archives/2026"),
        ("ZEPTOCLAW_HEARTBEAT_ENABLED", "true"),
        ("ZEPTOCLAW_HEARTBEAT_INTERVAL_SECS", "900"),
        ("ZEPTOCLAW_HEARTBEAT_FILE_PATH", "/tmp/heartbeat.md"),
        ("ZEPTOCLAW_SKILLS_ENABLED", "false"),
        ("ZEPTOCLAW_SKILLS_ALWAYS_LOAD", "github,weather"),
        ("ZEPTOCLAW_SKILLS_DISABLED", "experimental"),
        ("ZEPTOCLAW_TOOLS_WHATSAPP_PHONE_NUMBER_ID", "123456"),
        ("ZEPTOCLAW_TOOLS_WHATSAPP_ACCESS_TOKEN", "wa-token"),
        ("ZEPTOCLAW_TOOLS_GOOGLE_SHEETS_ACCESS_TOKEN", "gs-token"),
    ]);

    let agent = agent_overrides(&vars);
    let mut tools = ToolsConfig::default();
    tools.apply_env_overrides(&vars);
    let memory = memory_overrides(&vars);
    let mut heartbeat = HeartbeatConfig::default();
    heartbeat.apply_env_overrides(&vars);
    let mut skills = SkillsConfig::default();
    skills.apply_env_overrides(&vars);

    assert_eq!(agent.model, Some("test-model".to_string()));
    assert_eq!(agent.max_tokens, Some(1000));
    assert_eq!(tools.web.search.api_key, Some("test-brave-key".to_string()));
    assert_eq!(tools.web.search.max_results, 9);
    assert_eq!(memory.backend, Some(MemoryBackend::Disabled));
    assert_eq!(memory.citations, Some(MemoryCitationsMode::On));
    assert_eq!(memory.max_results, Some(12));
    assert_eq!(env_var(&vars, "ZEPTOCLAW_MEMORY_MIN_SCORE").unwrap().parse::<f32>().unwrap(), 0.55);
    assert_eq!(memory.include_default_memory, Some(false));
    assert_eq!(
        memory.extra_paths,
        Some(vec!["notes".to_string(), "archives/2026".to_string()])
    );
    assert!(heartbeat.enabled);
    assert_eq!(heartbeat.interval_secs, 900);
    assert_eq!(heartbeat.file_path, Some("/tmp/heartbeat.md".to_string()));
    assert!(!skills.enabled);
    assert_eq!(skills.always_load, vec!["github".to_string(), "weather".to_string()]);
    assert_eq!(skills.disabled, vec!["experimental".to_string()]);
    assert_eq!(tools.whatsapp.phone_number_id, Some("123456".to_string()));
    assert_eq!(tools.whatsapp.access_token, Some("wa-token".to_string()));
    assert_eq!(tools.google_sheets.access_token, Some("gs-token".to_string()));
}

#[test]
fn test_get_api_key() {
    let mut providers = ProvidersConfig::default();

    // No API keys configured
    assert!(providers.get_api_key().is_none());

    // Add OpenAI key
    providers.openai = Some(ProviderConfig {
        api_key: Some("openai-key".to_string()),
        ..Default::default()
    });
    assert_eq!(providers.get_api_key(), Some("openai-key".to_string()));

    // OpenRouter has higher priority
    providers.openrouter = Some(ProviderConfig {
        api_key: Some("openrouter-key".to_string()),
        ..Default::default()
    });
    assert_eq!(providers.get_api_key(), Some("openrouter-key".to_string()));
}

#[test]
fn api_base_follows_first_keyed_provider() {
    let mut providers = ProvidersConfig::default();
    assert_eq!(providers.get_api_base(), None);
    providers.zhipu = Some(ProviderConfig {
        api_key: Some("z".to_string()),
        api_base: Some("https://zhipu.example".to_string()),
        ..Default::default()
    });
    assert_eq!(providers.get_api_base(), Some("https://zhipu.example".to_string()));
    providers.openrouter = Some(ProviderConfig {
        api_key: Some("or".to_string()),
        ..Default::default()
    });
    assert_eq!(providers.get_api_base(), Some("https://openrouter.ai/api/v1".to_string()));
    providers.openrouter = Some(ProviderConfig {
        api_key: Some(String::new()),
        ..Default::default()
    });
    assert_eq!(providers.get_api_base(), Some("https://zhipu.example".to_string()));
}

#[test]
fn provider_keys_from_environment() {
    let vars = env(&[
        ("ZEPTOCLAW_PROVIDERS_ANTHROPIC_API_KEY", "sk-ant"),
        ("ZEPTOCLAW_PROVIDERS_OPENAI_API_BASE", "http://localhost:8000/v1"),
        ("ZEPTOCLAW_PROVIDERS_GROQ_API_BASE", "ignored"),
    ]);
    let mut providers = ProvidersConfig::default();
    providers.openai = Some(ProviderConfig {
        api_key: Some("sk-openai".to_string()),
        auth_method: Some("oauth".to_string()),
        ..Default::default()
    });
    providers.apply_env_overrides(&vars);
    let a = providers.anthropic.clone().unwrap();
    assert_eq!(a.api_key, Some("sk-ant".to_string()));
    assert_eq!(a.api_base, None);
    let o = providers.openai.clone().unwrap();
    assert_eq!(o.api_key, Some("sk-openai".to_string()));
    assert_eq!(o.api_base, Some("http://localhost:8000/v1".to_string()));
    assert_eq!(o.auth_method, Some("oauth".to_string()));
    assert!(providers.groq.is_none());
    assert!(providers.gemini.is_none());
}

#[test]
fn channel_overrides_from_environment() {
    let vars = env(&[
        ("ZEPTOCLAW_CHANNELS_TELEGRAM_TOKEN", "tg"),
        ("ZEPTOCLAW_CHANNELS_DISCORD_ENABLED", "yes"),
        ("ZEPTOCLAW_CHANNELS_SLACK_ENABLED", "true"),
        ("ZEPTOCLAW_CHANNELS_WHATSAPP_BRIDGE_URL", "ws://bridge:9"),
    ]);
    let mut channels = ChannelsConfig::default();
    channels.telegram = Some(TelegramConfig {
        enabled: true,
        token: "old".to_string(),
        allow_from: vec!["42".to_string()],
        deny_by_default: true,
    });
    channels.apply_env_overrides(&vars);
    let t = channels.telegram.clone().unwrap();
    assert_eq!(t.token, "tg");
    assert!(t.enabled);
    assert_eq!(t.allow_from, vec!["42".to_string()]);
    // "yes" is not a boolean: the Discord slot stays empty.
    assert!(channels.discord.is_none());
    let s = channels.slack.clone().unwrap();
    assert!(s.enabled);
    assert_eq!(s.bot_token, "");
    let w = channels.whatsapp.clone().unwrap();
    assert_eq!(w.bridge_url, "ws://bridge:9");
    assert!(!w.enabled);
    assert!(w.bridge_managed);
}

#[test]
fn tool_overrides_prefer_tool_scoped_names_and_clamp() {
    let vars = env(&[
        ("BRAVE_API_KEY", "plain"),
        ("ZEPTOCLAW_TOOLS_WEB_SEARCH_API_KEY", "scoped"),
        ("ZEPTOCLAW_TOOLS_WEB_SEARCH_MAX_RESULTS", "99"),
        ("ZEPTOCLAW_INTEGRATIONS_WHATSAPP_ACCESS_TOKEN", "integration"),
        ("ZEPTOCLAW_TOOLS_WHATSAPP_DEFAULT_LANGUAGE", "   "),
    ]);
    let mut tools = ToolsConfig::default();
    tools.apply_env_overrides(&vars);
    assert_eq!(tools.web.search.api_key, Some("scoped".to_string()));
    assert_eq!(tools.web.search.max_results, 10);
    assert_eq!(tools.whatsapp.access_token, Some("integration".to_string()));
    assert_eq!(tools.whatsapp.default_language, "ms");
    let vars = env(&[("ZEPTOCLAW_TOOLS_WEB_SEARCH_MAX_RESULTS", "0")]);
    tools.apply_env_overrides(&vars);
    assert_eq!(tools.web.search.max_results, 1);
}

#[test]
fn heartbeat_interval_is_clamped() {
    let mut hb = HeartbeatConfig::default();
    hb.apply_env_overrides(&env(&[("ZEPTOCLAW_HEARTBEAT_INTERVAL_SECS", "5")]));
    assert_eq!(hb.interval_secs, 30);
    hb.apply_env_overrides(&env(&[("ZEPTOCLAW_HEARTBEAT_INTERVAL_SECS", "999999")]));
    assert_eq!(hb.interval_secs, 86400);
    hb.apply_env_overrides(&env(&[("ZEPTOCLAW_HEARTBEAT_INTERVAL_SECS", "-5")]));
    assert_eq!(hb.interval_secs, 86400);
    hb.apply_env_overrides(&env(&[("ZEPTOCLAW_HEARTBEAT_FILE_PATH", " ")]));
    assert_eq!(hb.file_path, None);
}

#[test]
fn gateway_host_and_port() {
    let mut g = GatewayConfig::default();
    g.apply_env_overrides(&env(&[
        ("ZEPTOCLAW_GATEWAY_HOST", "127.0.0.1"),
        ("ZEPTOCLAW_GATEWAY_PORT", "70000"),
    ]));
    assert_eq!(g.host, "127.0.0.1");
    assert_eq!(g.port, 8080);
    g.apply_env_overrides(&env(&[("ZEPTOCLAW_GATEWAY_PORT", "+9090")]));
    assert_eq!(g.port, 9090);
}

#[test]
fn value_parsers() {
    assert_eq!(parse_bool("true"), Some(true));
    assert_eq!(parse_bool("TRUE"), None);
    assert_eq!(parse_unsigned("42", 100), Some(42));
    assert_eq!(parse_unsigned("", 100), None);
    assert_eq!(parse_unsigned("101", 100), None);
    assert_eq!(parse_unsigned(" 1", 100), None);
    assert_eq!(comma_list(" a, ,b ,"), vec!["a".to_string(), "b".to_string()]);
    assert!(comma_list("").is_empty());
    assert_eq!(parse_memory_backend(" Disabled "), Some(MemoryBackend::Disabled));
    assert_eq!(parse_memory_backend("bm25"), None);
    assert_eq!(parse_citations("FALSE"), Some(MemoryCitationsMode::Off));
    assert_eq!(parse_citations("maybe"), None);
}

#[test]
fn first_of_duplicate_variables_wins() {
    let vars = env(&[("A", "1"), ("A", "2")]);
    assert_eq!(env_var(&vars, "A"), Some("1".to_string()));
    assert_eq!(env_var(&vars, "B"), None);
}
