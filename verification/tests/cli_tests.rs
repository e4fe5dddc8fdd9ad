use zeptoclaw::cli::agent::active_model_override;
use zeptoclaw::cli::agent::approval_answer;
use zeptoclaw::cli::agent::cli_session_key;
use zeptoclaw::cli::agent::format_cli_error;
use zeptoclaw::cli::agent::format_tool_list;
use zeptoclaw::cli::agent::is_interactive_cli_terminal;
use zeptoclaw::cli::agent::ApprovalAnswer;
use zeptoclaw::cli::daemon::compute_backoff;
use zeptoclaw::cli::daemon::Supervisor;
use zeptoclaw::cli::daemon::INITIAL_BACKOFF_MS;
use zeptoclaw::cli::daemon::MAX_BACKOFF_MS;
use zeptoclaw::cli::doctor::check_channels;
use zeptoclaw::cli::doctor::check_providers;
use zeptoclaw::cli::doctor::severity_counts;
use zeptoclaw::cli::doctor::ChannelFacts;
use zeptoclaw::cli::doctor::DiagItem;
use zeptoclaw::cli::doctor::Severity;
use zeptoclaw::cli::gateway::parse_deliver_to;
use zeptoclaw::cli::memory::truncate_value;
use zeptoclaw::cli::onboard::express_next_steps;
use zeptoclaw::cli::skills::github_source;
use zeptoclaw::cli::skills::normalize_github_repo;
use zeptoclaw::cli::skills::skill_template;
use zeptoclaw::cli::skills::validate_skill_name;
use zeptoclaw::cli::skills::GithubSource;
use zeptoclaw::cli::skills::SkillNameError;
use zeptoclaw::cli::skills::COMMUNITY_REPO;
use zeptoclaw::cli::slash::builtin_commands;
use zeptoclaw::cli::slash::complete_commands;
use zeptoclaw::cli::slash::format_help;
use zeptoclaw::cli::slash::SlashHelper;
use zeptoclaw::cli::tools::is_tool_configured;
use zeptoclaw::cli::tools::tools;
use zeptoclaw::cli::tools::tools_summary_counts;
use zeptoclaw::cli::tools::ToolConfigFacts;
use zeptoclaw::cli::update::is_newer;
use zeptoclaw::cli::update::parse_semver;
use zeptoclaw::cli::update::platform_asset_name;
use zeptoclaw::cli::update::release_url;
use zeptoclaw::cli::update::select_assets;
use zeptoclaw::cli::update::update_step;
use zeptoclaw::cli::update::verify_checksum;
use zeptoclaw::cli::update::GitHubAsset;
use zeptoclaw::cli::update::UpdateStep;
use zeptoclaw::cli::watch::change_message;
use zeptoclaw::cli::watch::interval_fits;
use zeptoclaw::cli::watch::parse_interval;
use zeptoclaw::cli::watch::snapshot_file_name;
use zeptoclaw::cli::watch::url_hash;
use zeptoclaw::cli::watch::watch_outcome;
use zeptoclaw::cli::watch::IntervalError;
use zeptoclaw::cli::watch::WatchOutcome;

// -- agent ------------------------------------------------------------------

#[test]
fn test_format_cli_error_auth() {
    let msg = format_cli_error("Authentication error: invalid key");
    assert!(msg.contains("Fix:"));
    assert!(msg.contains("auth status"));
}

#[test]
fn test_format_cli_error_billing() {
    let msg = format_cli_error("Billing error: payment required");
    assert!(msg.contains("Fix:"));
    assert!(msg.contains("payment method"));
}

#[test]
fn test_format_cli_error_rate_limit() {
    let msg = format_cli_error("Rate limit exceeded");
    assert!(msg.contains("Fix:"));
    assert!(msg.contains("Wait"));
}

#[test]
fn test_format_cli_error_generic() {
    let msg = format_cli_error("Something went wrong");
    assert_eq!(msg, "Something went wrong");
    assert!(!msg.contains("Fix:"));
}

#[test]
fn test_format_cli_error_provider_and_timeout() {
    assert_eq!(
        format_cli_error("Timeout after 30s"),
        "Timeout after 30s\n\n  Fix: Try again. If persistent, check your network connection."
    );
    assert!(format_cli_error("bad provider").ends_with("set up an AI provider."));
}

#[test]
fn test_format_tool_list_lists_each_tool() {
    let output = format_tool_list(&["echo", "filesystem", "web_fetch"]);
    assert!(output.contains("Available tools (3):"));
    assert!(output.contains("  echo"));
    assert!(output.contains("  filesystem"));
    assert!(output.contains("  web_fetch"));
    assert_eq!(output, "Available tools (3):\n\n  echo\n  filesystem\n  web_fetch");
}

#[test]
fn test_format_tool_list_handles_empty_registry() {
    assert_eq!(format_tool_list(&[]), "No tools registered.");
}

#[test]
fn test_has_interactive_cli_terminal_requires_stdin_and_stdout_tty() {
    assert!(is_interactive_cli_terminal(true, true));
    assert!(!is_interactive_cli_terminal(true, false));
    assert!(!is_interactive_cli_terminal(false, true));
    assert!(!is_interactive_cli_terminal(false, false));
}

#[test]
fn test_cli_session_key_value() {
    assert_eq!(cli_session_key(), "cli:cli");
}

#[test]
fn test_active_model_override_uses_explicit_provider() {
    let current = active_model_override(
        &Some((Some("openai".to_string()), "gpt-5.1".to_string())),
        "anthropic:sonnet-4-5",
    )
    .unwrap();
    assert_eq!(current.provider.as_deref(), Some("openai"));
    assert_eq!(current.model, "gpt-5.1");
}

#[test]
fn test_active_model_override_falls_back_to_default_provider() {
    let current = active_model_override(
        &Some((None, "haiku-4-5".to_string())),
        "anthropic:sonnet-4-5",
    )
    .unwrap();
    assert_eq!(current.provider.as_deref(), Some("anthropic"));
    assert_eq!(current.model, "haiku-4-5");
}

#[test]
fn test_approval_answers() {
    assert_eq!(approval_answer(" YES \n"), ApprovalAnswer::Approve);
    assert_eq!(approval_answer("y"), ApprovalAnswer::Approve);
    assert_eq!(approval_answer("\n"), ApprovalAnswer::Deny);
    assert_eq!(approval_answer("No"), ApprovalAnswer::Deny);
    assert_eq!(approval_answer("maybe"), ApprovalAnswer::AskAgain);
}

// -- daemon -----------------------------------------------------------------

#[test]
fn test_compute_backoff_doubles() {
    assert_eq!(compute_backoff(1000), 2000);
    assert_eq!(compute_backoff(2000), 4000);
}

#[test]
fn test_compute_backoff_caps_at_max() {
    assert_eq!(compute_backoff(200_000), MAX_BACKOFF_MS);
    assert_eq!(compute_backoff(MAX_BACKOFF_MS), MAX_BACKOFF_MS);
}

#[test]
fn test_compute_backoff_initial() {
    assert_eq!(compute_backoff(INITIAL_BACKOFF_MS), INITIAL_BACKOFF_MS * 2);
}

#[test]
fn test_backoff_reaches_cap_and_stays() {
    let mut b = INITIAL_BACKOFF_MS;
    for _ in 0..9 {
        b = compute_backoff(b);
    }
    assert_eq!(b, MAX_BACKOFF_MS);
    assert_eq!(compute_backoff(b), MAX_BACKOFF_MS);
    assert_eq!(compute_backoff(u64::MAX), MAX_BACKOFF_MS);
}

#[test]
fn test_supervisor_failures() {
    let mut s = Supervisor::new();
    assert_eq!(s.on_failure(), (1, 1000));
    assert_eq!(s.on_failure(), (2, 2000));
    let st = s.state("restarting", "t0", "0.0.0.0:8080", false, Some("boom".to_string()));
    assert_eq!(st.status, "restarting");
    assert_eq!(st.components.len(), 1);
    assert_eq!(st.components[0].name, "gateway");
    assert_eq!(st.components[0].restart_count, 2);
    assert_eq!(st.components[0].last_error.as_deref(), Some("boom"));
}

// -- doctor -----------------------------------------------------------------

#[test]
fn test_severity_display() {
    assert_eq!(Severity::Pass.icon(), "[ok]");
    assert_eq!(Severity::Warn.icon(), "[warn]");
    assert_eq!(Severity::Fail.icon(), "[ERR]");
}

#[test]
fn test_check_provider_no_key() {
    let mut diags: Vec<DiagItem> = Vec::new();
    check_providers(&vec![("Anthropic", None), ("OpenAI", Some(String::new()))], &mut diags);
    assert_eq!(diags.len(), 1);
    assert_eq!(diags[0].severity, Severity::Warn);
}

#[test]
fn test_check_provider_with_key() {
    let mut diags: Vec<DiagItem> = Vec::new();
    check_providers(&vec![("Anthropic", Some("k".to_string())), ("Groq", None)], &mut diags);
    assert_eq!(diags.len(), 1);
    assert_eq!(diags[0].severity, Severity::Pass);
    assert_eq!(diags[0].message, "Anthropic API key configured");
}

#[test]
fn test_check_channels_none_enabled() {
    let mut diags: Vec<DiagItem> = Vec::new();
    check_channels(&None, &Some(ChannelFacts { enabled: false, token: String::new() }), &mut diags);
    assert_eq!(diags.len(), 1);
    assert_eq!(diags[0].message, "No channels enabled (CLI-only mode)");
    let mut more: Vec<DiagItem> = Vec::new();
    check_channels(&Some(ChannelFacts { enabled: true, token: String::new() }), &None, &mut more);
    assert_eq!(more[0].severity, Severity::Fail);
    let (ok, warn, err) = severity_counts(&diags);
    assert_eq!((ok, warn, err), (0, 1, 0));
}

// -- gateway ----------------------------------------------------------------

#[test]
fn test_parse_deliver_to_valid() {
    assert_eq!(
        parse_deliver_to("telegram:123456789"),
        Some(("telegram".to_string(), "123456789".to_string()))
    );
}

#[test]
fn test_parse_deliver_to_with_colon_in_chat_id() {
    assert_eq!(
        parse_deliver_to("discord:guild:123"),
        Some(("discord".to_string(), "guild:123".to_string()))
    );
}

#[test]
fn test_parse_deliver_to_invalid() {
    assert_eq!(parse_deliver_to("no-colon"), None);
    assert_eq!(parse_deliver_to(":empty_channel"), None);
    assert_eq!(parse_deliver_to("empty_chat:"), None);
}

#[test]
fn test_deliver_to_round_trip() {
    let s = format!("{}:{}", "slack", "C1:x");
    assert_eq!(parse_deliver_to(&s), Some(("slack".to_string(), "C1:x".to_string())));
}

// -- memory -----------------------------------------------------------------

#[test]
fn test_truncate_value_short() {
    assert_eq!(truncate_value("hello", 80), "hello");
}

#[test]
fn test_truncate_value_long() {
    let long = "a".repeat(100);
    let result = truncate_value(&long, 10);
    assert!(result.len() <= 14);
    assert!(result.ends_with("..."));
}

#[test]
fn test_truncate_value_exact() {
    let s = "a".repeat(80);
    assert_eq!(truncate_value(&s, 80), s);
}

#[test]
fn test_truncate_value_multibyte_utf8() {
    let s = "\u{1F600}\u{1F601}\u{1F602}";
    let result = truncate_value(s, 5);
    assert!(result.ends_with("..."));
    assert!(result.starts_with("\u{1F600}"));
}

#[test]
fn test_truncate_value_cjk() {
    let s = "\u{4F60}\u{597D}\u{4E16}\u{754C}";
    let result = truncate_value(s, 7);
    assert!(result.ends_with("..."));
    assert_eq!(result, "\u{4F60}\u{597D}...");
}

#[test]
fn test_truncate_value_boundaries() {
    assert_eq!(truncate_value(&"a".repeat(100), 10), format!("{}...", "a".repeat(10)));
    assert_eq!(truncate_value("\u{1F600}\u{1F601}", 0), "...");
}

// -- onboard ----------------------------------------------------------------

#[test]
fn test_express_next_steps_message() {
    let msg = express_next_steps();
    assert!(msg.contains("ZeptoClaw ready!"));
    assert!(msg.contains("zeptoclaw agent -m"));
    assert!(msg.contains("zeptoclaw onboard --full"));
    assert!(msg.contains("zeptoclaw status"));
    assert!(msg.contains("Summarize https://news.ycombinator.com"));
    assert!(msg.starts_with("\nZeptoClaw ready!\n\n"));
}

// -- skills -----------------------------------------------------------------

#[test]
fn test_create_template_contains_new_field_comments() {
    let template = skill_template("test-skill");
    assert!(template.contains("# author:"), "template should contain '# author:'");
    assert!(template.contains("# license:"), "template should contain '# license:'");
    assert!(template.contains("# tags:"), "template should contain '# tags:'");
    assert!(template.contains("# depends:"), "template should contain '# depends:'");
    assert!(template.contains("# conflicts:"), "template should contain '# conflicts:'");
    assert!(template.contains("# env_needed:"), "template should contain '# env_needed:'");
    assert!(template.contains("name: test-skill"));
    assert!(template.contains("# test-skill Skill"));
}

#[test]
fn test_normalize_github_repo() {
    assert_eq!(normalize_github_repo("https://github.com/steipete/gogcli"), "steipete/gogcli");
    assert_eq!(normalize_github_repo("https://github.com/owner/repo/"), "owner/repo");
    assert_eq!(normalize_github_repo("http://github.com/owner/repo"), "owner/repo");
    assert_eq!(normalize_github_repo("owner/repo"), "owner/repo");
    assert_eq!(normalize_github_repo("owner/repo/"), "owner/repo");
    assert_eq!(normalize_github_repo("https://github.com/owner/repo.git"), "owner/repo");
    assert_eq!(normalize_github_repo("owner/repo.git"), "owner/repo");
    assert_eq!(
        normalize_github_repo("https://github.com/qhkm/zeptoclaw-skills/obsidian-vault"),
        "qhkm/zeptoclaw-skills/obsidian-vault"
    );
    assert_eq!(normalize_github_repo("qhkm/zeptoclaw-skills/weather"), "qhkm/zeptoclaw-skills/weather");
}

#[test]
fn test_validate_skill_name() {
    assert!(validate_skill_name("obsidian-vault").is_ok());
    assert!(validate_skill_name("my_skill").is_ok());
    assert!(validate_skill_name("weather").is_ok());
    assert!(validate_skill_name("send-email").is_ok());
    assert!(validate_skill_name("").is_err());
    assert!(validate_skill_name("..").is_err());
    assert!(validate_skill_name("../escape").is_err());
    assert!(validate_skill_name("foo/bar").is_err());
    assert!(validate_skill_name(".hidden").is_err());
    assert!(validate_skill_name("foo\\bar").is_err());
}

#[test]
fn test_validate_skill_name_errors() {
    assert_eq!(validate_skill_name(""), Err(SkillNameError::Empty));
    assert_eq!(validate_skill_name("a/b"), Err(SkillNameError::PathSeparator("a/b".to_string())));
    assert_eq!(validate_skill_name(".x"), Err(SkillNameError::LeadingDot(".x".to_string())));
    assert_eq!(validate_skill_name("a..b"), Err(SkillNameError::DotDot("a..b".to_string())));
}

#[test]
fn test_github_segment_parsing() {
    let normalized = normalize_github_repo("user/my-skill");
    let segments: Vec<&str> = normalized.split('/').collect();
    assert_eq!(segments.len(), 2);

    let normalized = normalize_github_repo("https://github.com/qhkm/zeptoclaw-skills/obsidian-vault");
    let segments: Vec<&str> = normalized.split('/').collect();
    assert_eq!(segments.len(), 3);
    assert_eq!(format!("{}/{}", segments[0], segments[1]), "qhkm/zeptoclaw-skills");
    assert_eq!(segments[2..].join("/"), "obsidian-vault");
}

#[test]
fn test_github_source() {
    match github_source("user/my-skill") {
        Ok(GithubSource::Single(r)) => assert_eq!(r, "user/my-skill"),
        _ => panic!("expected a single-skill repo"),
    }
    match github_source("https://github.com/qhkm/zeptoclaw-skills/a/b") {
        Ok(GithubSource::Multi { repo, path }) => {
            assert_eq!(repo, "qhkm/zeptoclaw-skills");
            assert_eq!(path, "a/b");
        }
        _ => panic!("expected a multi-skill repo"),
    }
    assert_eq!(
        github_source("justone").err(),
        Some("Expected owner/repo or owner/repo/skill format, got: justone".to_string())
    );
}

#[test]
fn test_community_repo_constant() {
    assert_eq!(COMMUNITY_REPO, "qhkm/zeptoclaw-skills");
    let segments: Vec<&str> = COMMUNITY_REPO.split('/').collect();
    assert_eq!(segments.len(), 2);
}

// -- slash ------------------------------------------------------------------

#[test]
fn test_builtin_commands_not_empty() {
    let cmds = builtin_commands();
    assert!(!cmds.is_empty());
}

#[test]
fn test_builtin_commands_no_leading_slash() {
    for cmd in builtin_commands() {
        assert!(!cmd.name.starts_with('/'), "Command name should not start with /: {}", cmd.name);
    }
}

#[test]
fn test_builtin_commands_have_descriptions() {
    for cmd in builtin_commands() {
        assert!(!cmd.description.is_empty(), "Command {} has empty description", cmd.name);
    }
}

#[test]
fn test_format_help_includes_commands() {
    let help = format_help();
    assert!(help.contains("/model"));
    assert!(help.contains("/persona"));
    assert!(help.contains("/help"));
    assert!(help.contains("/trust"));
    assert!(help.contains("/quit"));
    assert!(!help.contains("/model list"));
}

#[test]
fn test_format_help_includes_tab_hint() {
    let help = format_help();
    assert!(help.contains("Tab"));
}

#[test]
fn test_format_help_line_layout() {
    let help = format_help();
    assert!(help.starts_with("Available commands:\n\n  /model            Show or switch LLM model\n"));
    assert!(help.ends_with("\nType '/' and press Tab to autocomplete."));
}

#[test]
fn test_builtin_commands_stub_descriptions_match_behavior() {
    let cmds = builtin_commands();
    let template = cmds.iter().find(|cmd| cmd.name == "template").unwrap();
    let history = cmds.iter().find(|cmd| cmd.name == "history").unwrap();
    let memory = cmds.iter().find(|cmd| cmd.name == "memory").unwrap();
    let trust = cmds.iter().find(|cmd| cmd.name == "trust").unwrap();
    assert_eq!(template.description, "List available templates");
    assert_eq!(history.description, "Show history command hints");
    assert_eq!(memory.description, "Show memory command hints");
    assert_eq!(trust.description, "Show local trusted-session status");
}

#[test]
fn test_completer_no_slash_returns_empty() {
    let helper = SlashHelper::new();
    let (pos, matches) = complete_commands(&helper.commands, "hello", 5);
    assert_eq!(pos, 0);
    assert!(matches.is_empty());
}

#[test]
fn test_completer_slash_alone_returns_all() {
    let helper = SlashHelper::new();
    let (_, matches) = complete_commands(&helper.commands, "/", 1);
    assert_eq!(matches.len(), builtin_commands().len());
    for w in matches.windows(2) {
        assert!(w[0].replacement.len() <= w[1].replacement.len());
    }
}

#[test]
fn test_completer_slash_mo_filters() {
    let helper = SlashHelper::new();
    let (_, matches) = complete_commands(&helper.commands, "/mo", 3);
    assert!(matches.len() >= 2);
    assert!(matches.iter().all(|m| m.replacement.starts_with("/mo")));
}

#[test]
fn test_completer_slash_model_space_filters_subcommands() {
    let helper = SlashHelper::new();
    let (_, matches) = complete_commands(&helper.commands, "/model ", 7);
    assert!(matches.iter().any(|m| m.replacement == "/model list"));
}

#[test]
fn test_completer_no_match() {
    let helper = SlashHelper::new();
    let (_, matches) = complete_commands(&helper.commands, "/zzz", 4);
    assert!(matches.is_empty());
}

#[test]
fn test_completer_display_padding() {
    let helper = SlashHelper::new();
    let (_, matches) = complete_commands(&helper.commands, "/quit", 5);
    assert_eq!(matches.len(), 1);
    assert_eq!(matches[0].display, format!("/{:<20} {}", "quit", "Exit interactive mode"));
}

// -- tools ------------------------------------------------------------------

#[test]
fn test_tools_list_count() {
    assert_eq!(tools().len(), 22);
}

#[test]
fn test_tool_names_unique() {
    let mut names: Vec<&str> = tools().iter().map(|t| t.name).collect();
    let original_len = names.len();
    names.sort();
    names.dedup();
    assert_eq!(names.len(), original_len, "Duplicate tool names found");
}

#[test]
fn test_opt_in_tools_exist() {
    let all = tools();
    let opt_in: Vec<_> = all.iter().filter(|t| t.opt_in).collect();
    assert_eq!(opt_in.len(), 2);
    assert!(opt_in.iter().any(|t| t.name == "grep"));
    assert!(opt_in.iter().any(|t| t.name == "find"));
}

fn no_facts() -> ToolConfigFacts {
    ToolConfigFacts {
        whatsapp_phone_number_id: None,
        whatsapp_access_token: None,
        google_sheets_access_token: None,
        google_sheets_service_account_base64: None,
        google_access_token: None,
        google_client_id: None,
        telegram_enabled: None,
        slack_enabled: None,
        discord_enabled: None,
        r8r_api_url_set: false,
    }
}

#[test]
fn test_is_tool_configured_default_tools() {
    let facts = no_facts();
    assert!(is_tool_configured(&facts, "echo"));
    assert!(is_tool_configured(&facts, "shell"));
    assert!(is_tool_configured(&facts, "cron"));
    assert!(is_tool_configured(&facts, "web_search"));
    assert!(is_tool_configured(&facts, "unknown_tool"));
    assert!(!is_tool_configured(&facts, "message"));
    assert!(!is_tool_configured(&facts, "whatsapp_send"));
}

#[test]
fn test_is_tool_configured_with_values() {
    let mut facts = no_facts();
    facts.whatsapp_phone_number_id = Some("1".to_string());
    facts.whatsapp_access_token = Some("  ".to_string());
    assert!(!is_tool_configured(&facts, "whatsapp_send"));
    facts.whatsapp_access_token = Some("t".to_string());
    assert!(is_tool_configured(&facts, "whatsapp_send"));
    facts.slack_enabled = Some(true);
    assert!(is_tool_configured(&facts, "message"));
    let (ready, needs) = tools_summary_counts(&facts, false);
    assert_eq!(ready + needs, 22);
    assert_eq!(needs, 5);
}

// -- update -----------------------------------------------------------------

#[test]
fn test_parse_semver_basic() {
    assert_eq!(parse_semver("1.2.3"), Some((1, 2, 3)));
}

#[test]
fn test_parse_semver_with_v_prefix() {
    assert_eq!(parse_semver("v0.5.0"), Some((0, 5, 0)));
}

#[test]
fn test_parse_semver_invalid() {
    assert_eq!(parse_semver("not-a-version"), None);
    assert_eq!(parse_semver("1.2"), None);
    assert_eq!(parse_semver(""), None);
}

#[test]
fn test_is_newer_true() {
    assert!(is_newer("0.5.0", "0.5.1"));
    assert!(is_newer("0.5.9", "0.6.0"));
    assert!(is_newer("0.9.9", "1.0.0"));
}

#[test]
fn test_is_newer_false_same() {
    assert!(!is_newer("0.5.0", "0.5.0"));
}

#[test]
fn test_is_newer_false_older() {
    assert!(!is_newer("0.6.0", "0.5.0"));
    assert!(!is_newer("1.0.0", "0.9.9"));
}

#[test]
fn test_is_newer_handles_v_prefix() {
    assert!(is_newer("v0.5.0", "v0.5.1"));
    assert!(is_newer("0.5.0", "v0.5.1"));
    assert!(is_newer("v0.5.0", "0.5.1"));
}

#[test]
fn test_is_newer_invalid_returns_false() {
    assert!(!is_newer("bad", "0.5.0"));
    assert!(!is_newer("0.5.0", "bad"));
}

#[test]
fn test_platform_asset_name_valid() {
    let name = platform_asset_name("linux", "x86_64").unwrap();
    assert!(name.starts_with("zeptoclaw-"));
    assert!(name.contains("macos") || name.contains("linux"));
    assert!(name.contains("aarch64") || name.contains("x86_64"));
}

#[test]
fn test_platform_asset_name_unsupported() {
    assert_eq!(platform_asset_name("linux", "x86_64"), Ok("zeptoclaw-linux-x86_64".to_string()));
    assert!(platform_asset_name("windows", "x86_64").unwrap_err().contains("unsupported OS"));
    assert!(platform_asset_name("macos", "riscv64").unwrap_err().contains("unsupported architecture"));
}

#[test]
fn test_release_url_and_step() {
    assert_eq!(
        release_url(Some("1.2.3")),
        "https://api.github.com/repos/qhkm/zeptoclaw/releases/tags/v1.2.3"
    );
    assert_eq!(
        release_url(Some("v1.2.3")),
        "https://api.github.com/repos/qhkm/zeptoclaw/releases/tags/v1.2.3"
    );
    assert_eq!(release_url(None), "https://api.github.com/repos/qhkm/zeptoclaw/releases/latest");
    assert!(matches!(update_step("0.5.0", "v0.5.0", false, false), UpdateStep::UpToDate));
    assert!(matches!(update_step("0.5.0", "v0.6.0", true, false), UpdateStep::Report { newer: true }));
    assert!(matches!(update_step("0.5.0", "v0.5.0", true, true), UpdateStep::Report { newer: false }));
    assert!(matches!(update_step("0.5.0", "v0.6.0", false, false), UpdateStep::Install));
}

#[test]
fn test_select_assets_and_checksum() {
    let assets = vec![
        GitHubAsset { name: "zeptoclaw-linux-x86_64".to_string(), browser_download_url: "u1".to_string() },
        GitHubAsset {
            name: "zeptoclaw-linux-x86_64.sha256".to_string(),
            browser_download_url: "u2".to_string(),
        },
    ];
    assert_eq!(
        select_assets(&assets, "v1.0.0", "zeptoclaw-linux-x86_64"),
        Ok(("u1".to_string(), "u2".to_string()))
    );
    assert_eq!(
        select_assets(&assets, "v1.0.0", "zeptoclaw-macos-aarch64"),
        Err("release v1.0.0 has no asset named 'zeptoclaw-macos-aarch64'".to_string())
    );
    // SHA-256 of "abc".
    let digest = "BA7816BF8F01CFEA414140DE5DAE2223B00361A396177A9CB410FF61F20015AD";
    assert_eq!(verify_checksum(b"abc", &format!("{}  zeptoclaw", digest)), Ok(()));
    assert!(verify_checksum(b"abd", digest).unwrap_err().starts_with("SHA256 mismatch!"));
    assert_eq!(
        verify_checksum(b"abc", "short"),
        Err("invalid checksum format (expected 64 hex chars, got 5): short".to_string())
    );
}

// -- watch ------------------------------------------------------------------

#[test]
fn test_parse_interval_hours() {
    assert_eq!(parse_interval("1h").unwrap(), 3600);
    assert_eq!(parse_interval("2h").unwrap(), 7200);
}

#[test]
fn test_parse_interval_minutes() {
    assert_eq!(parse_interval("30m").unwrap(), 1800);
    assert_eq!(parse_interval("15m").unwrap(), 900);
}

#[test]
fn test_parse_interval_seconds() {
    assert_eq!(parse_interval("60s").unwrap(), 60);
    assert_eq!(parse_interval("120s").unwrap(), 120);
}

#[test]
fn test_parse_interval_bare_number() {
    assert_eq!(parse_interval("3600").unwrap(), 3600);
}

#[test]
fn test_parse_interval_invalid() {
    assert!(parse_interval("abc").is_err());
    assert!(parse_interval("").is_err());
}

#[test]
fn test_parse_interval_zero_rejected() {
    assert!(parse_interval("0s").is_err());
    assert!(parse_interval("0m").is_err());
    assert!(parse_interval("0h").is_err());
}

#[test]
fn test_parse_interval_below_minimum_rejected() {
    assert!(parse_interval("5s").is_err());
    assert!(parse_interval("9s").is_err());
    assert!(parse_interval("10s").is_ok());
}

#[test]
fn test_parse_interval_messages() {
    assert_eq!(parse_interval(" 2H "), Ok(7200));
    assert_eq!(parse_interval("xh"), Err(IntervalError::InvalidHours));
    assert_eq!(
        parse_interval("5s").unwrap_err().message(),
        "Interval too small (5s). Minimum is 10s to avoid excessive requests."
    );
    assert_eq!(
        parse_interval("abc").unwrap_err().message(),
        "Invalid interval. Use formats like 1h, 30m, or 60s"
    );
    assert!(!interval_fits("99999999999999999h"));
    assert!(interval_fits("1h"));
}

#[test]
fn test_url_hash_deterministic() {
    let h1 = url_hash("https://example.com");
    let h2 = url_hash("https://example.com");
    assert_eq!(h1, h2);
}

#[test]
fn test_url_hash_different_urls() {
    let h1 = url_hash("https://example.com");
    let h2 = url_hash("https://other.com");
    assert_ne!(h1, h2);
}

#[test]
fn test_snapshot_name_and_outcomes() {
    let url = "https://example.com";
    assert_eq!(snapshot_file_name(url), format!("{:x}.txt", url_hash(url)));
    assert_eq!(watch_outcome("", "x"), WatchOutcome::Baseline);
    assert_eq!(watch_outcome("a", "b"), WatchOutcome::Changed);
    assert_eq!(watch_outcome("a", "a"), WatchOutcome::Unchanged);
    assert_eq!(
        change_message("u", "ab", "abc"),
        "URL changed: u\nPrevious: 2 bytes -> New: 3 bytes"
    );
}
