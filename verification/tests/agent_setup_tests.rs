use zeptoclaw::cli::agent::model_step;
use zeptoclaw::cli::agent::persona_step;
use zeptoclaw::cli::agent::SwitchOutcome;
use zeptoclaw::cli::common::key_check_outcome;
use zeptoclaw::cli::common::key_check_request;
use zeptoclaw::cli::agent::classify_repl_input;
use zeptoclaw::cli::agent::message_metadata;
use zeptoclaw::cli::agent::repl_step;
use zeptoclaw::cli::agent::ReplAction;
use zeptoclaw::cli::agent::ReplKind;
use zeptoclaw::cli::agent::ReplState;
use zeptoclaw::cli::common::apply_fallback_preference;
use zeptoclaw::cli::common::brave_search_key;
use zeptoclaw::cli::common::builtin_tools;
use zeptoclaw::cli::common::chain_label;
use zeptoclaw::cli::common::custom_tool_indices;
use zeptoclaw::cli::common::delegate_decision;
use zeptoclaw::cli::common::escape_xml;
use zeptoclaw::cli::common::friendly_api_error;
use zeptoclaw::cli::common::friendly_api_message;
use zeptoclaw::cli::common::google_sheets_source;
use zeptoclaw::cli::common::plugin_chain_names;
use zeptoclaw::cli::common::project_token_present;
use zeptoclaw::cli::common::provider_chain_names;
use zeptoclaw::cli::common::resolve_profile_tools;
use zeptoclaw::cli::common::runtime_failure;
use zeptoclaw::cli::common::skill_disabled;
use zeptoclaw::cli::common::skills_install_dir;
use zeptoclaw::cli::common::skills_prompt;
use zeptoclaw::cli::common::tilde_suffix;
use zeptoclaw::cli::common::whatsapp_tool_credentials;
use zeptoclaw::cli::common::DelegateDecision;
use zeptoclaw::cli::common::SheetsSource;
use zeptoclaw::cli::common::SkillSummary;
use zeptoclaw::cli::common::ToolFilter;
use zeptoclaw::config::CustomToolDef;
use zeptoclaw::config::GoogleSheetsToolConfig;
use zeptoclaw::config::ProjectBackend;
use zeptoclaw::config::ProjectConfig;
use zeptoclaw::config::RuntimeType;
use zeptoclaw::config::ToolsConfig;
use zeptoclaw::config::WhatsAppToolConfig;

fn strings(v: &[&str]) -> Vec<String> {
    v.iter().map(|s| s.to_string()).collect()
}

fn open_filter() -> ToolFilter {
    ToolFilter::new(&Vec::new(), None, None, None)
}

// --- the interactive loop ---

#[test]
fn repl_classifies_commands() {
    assert_eq!(classify_repl_input("  /quit ").0, ReplKind::Quit);
    assert_eq!(classify_repl_input("/exit").0, ReplKind::Quit);
    assert_eq!(classify_repl_input("exit").0, ReplKind::Quit);
    assert_eq!(classify_repl_input("/help").0, ReplKind::Help);
    assert_eq!(classify_repl_input("/model").0, ReplKind::Model);
    assert_eq!(classify_repl_input("/model list").0, ReplKind::Model);
    assert_eq!(classify_repl_input("/models").0, ReplKind::Unknown);
    assert_eq!(classify_repl_input("/persona concise").0, ReplKind::Persona);
    assert_eq!(classify_repl_input("/tools").0, ReplKind::Tools);
    assert_eq!(classify_repl_input("/template").0, ReplKind::TemplateList);
    assert_eq!(classify_repl_input("/template list").0, ReplKind::TemplateList);
    assert_eq!(classify_repl_input("/template show x").0, ReplKind::TemplateUsage);
    assert_eq!(classify_repl_input("/history").0, ReplKind::History);
    assert_eq!(classify_repl_input("/memory").0, ReplKind::Memory);
    assert_eq!(classify_repl_input("/clear").0, ReplKind::Clear);
    assert_eq!(classify_repl_input("/trust").0, ReplKind::Trust);
    assert_eq!(classify_repl_input("/trust on").0, ReplKind::TrustOn);
    assert_eq!(classify_repl_input("/trust off").0, ReplKind::TrustOff);
    assert_eq!(classify_repl_input("   ").0, ReplKind::Blank);
    let (k, t, _) = classify_repl_input("  hello there \n");
    assert_eq!(k, ReplKind::Message);
    assert_eq!(t, "hello there");
}

#[test]
fn repl_unknown_command_text() {
    let mut st = ReplState::new(true);
    match repl_step(&mut st, "/frobnicate now") {
        ReplAction::Complain(s) => {
            assert_eq!(s, "Unknown command: /frobnicate now\nType /help to see available commands.")
        }
        _ => panic!("expected a complaint"),
    }
}

#[test]
fn repl_trust_only_in_interactive_mode() {
    let mut st = ReplState::new(false);
    match repl_step(&mut st, "/trust on") {
        ReplAction::Say(s) => {
            assert_eq!(s, "Trusted session override is only available in interactive CLI mode.")
        }
        _ => panic!("expected a reply"),
    }
    assert!(!st.trusted);

    let mut st = ReplState::new(true);
    match repl_step(&mut st, "/trust") {
        ReplAction::Say(s) => assert_eq!(
            s,
            "Trusted local session is OFF.\nUse /trust on to bypass approval prompts for this local interactive CLI session."
        ),
        _ => panic!("expected a reply"),
    }
    repl_step(&mut st, "/trust on");
    assert!(st.trusted);
    match repl_step(&mut st, "/trust") {
        ReplAction::Say(s) => assert_eq!(s, "Trusted local session is ON."),
        _ => panic!("expected a reply"),
    }
    match repl_step(&mut st, "/trust off") {
        ReplAction::Say(s) => assert_eq!(s, "Trusted local session disabled."),
        _ => panic!("expected a reply"),
    }
    assert!(!st.trusted);
}

#[test]
fn repl_message_carries_metadata() {
    let mut st = ReplState::new(true);
    repl_step(&mut st, "/trust on");
    st.model_override = Some((Some("openai".to_string()), "gpt-5".to_string()));
    st.persona_override = Some("concise".to_string());
    match repl_step(&mut st, " hi ") {
        ReplAction::Send { content, metadata } => {
            assert_eq!(content, "hi");
            let expected: Vec<(String, String)> = vec![
                ("interactive_cli".to_string(), "true".to_string()),
                ("trusted_local_session".to_string(), "true".to_string()),
                ("model_override".to_string(), "gpt-5".to_string()),
                ("provider_override".to_string(), "openai".to_string()),
                ("persona_override".to_string(), "concise".to_string()),
            ];
            assert_eq!(metadata, expected);
        }
        _ => panic!("expected a message"),
    }
}

#[test]
fn repl_metadata_without_terminal_has_no_trust_flag() {
    let st = ReplState::new(false);
    assert!(message_metadata(&st).is_empty());
}

#[test]
fn repl_fixed_replies() {
    let mut st = ReplState::new(true);
    assert!(matches!(repl_step(&mut st, ""), ReplAction::Skip));
    assert!(matches!(repl_step(&mut st, "quit"), ReplAction::Exit));
    assert!(matches!(repl_step(&mut st, "/clear"), ReplAction::ClearSession));
    match repl_step(&mut st, "/template foo") {
        ReplAction::Say(s) => assert_eq!(s, "Usage: /template list"),
        _ => panic!("expected a reply"),
    }
    match repl_step(&mut st, "/memory") {
        ReplAction::Say(s) => {
            assert_eq!(s, "Use 'zeptoclaw memory list' or 'zeptoclaw memory search <query>'.")
        }
        _ => panic!("expected a reply"),
    }
}

// --- tool filters ---

#[test]
fn tool_filter_matches_without_case() {
    let f = ToolFilter::new(
        &strings(&["Shell"]),
        Some(&strings(&["shell", "ECHO", "read_file"])),
        Some(&strings(&["echo", "Read_File", "shell"])),
        Some(&strings(&["READ_FILE"])),
    );
    assert!(!f.tool_enabled("shell"));
    assert!(f.tool_enabled("Echo"));
    assert!(!f.tool_enabled("read_file"));
    assert!(!f.tool_enabled("write_file"));
    assert!(open_filter().tool_enabled("anything"));
}

#[test]
fn tool_profile_resolution() {
    let profiles = vec![
        ("minimal".to_string(), Some(strings(&["echo"]))),
        ("full".to_string(), None),
    ];
    let (t, warn) = resolve_profile_tools(Some("minimal"), &profiles);
    assert_eq!(t, Some(strings(&["echo"])));
    assert!(!warn);
    assert_eq!(resolve_profile_tools(Some("full"), &profiles), (None, false));
    assert_eq!(resolve_profile_tools(Some("nope"), &profiles), (None, true));
    assert_eq!(resolve_profile_tools(None, &profiles), (None, false));
}

#[test]
fn builtin_tools_default_config() {
    let tools = builtin_tools(&open_filter(), &ToolsConfig::default(), &ProjectConfig::default(), true, false);
    let expected = strings(&[
        "echo", "read_file", "write_file", "list_dir", "edit_file", "shell", "web_search",
        "web_fetch", "pdf_read", "message", "memory_search", "memory_get", "longterm_memory",
        "cron", "spawn", "r8r", "reminder", "create_tool",
    ]);
    assert_eq!(tools, expected);
}

#[test]
fn builtin_tools_follow_configuration() {
    let mut t = ToolsConfig::default();
    t.whatsapp.phone_number_id = Some(" 123 ".to_string());
    t.whatsapp.access_token = Some("tok".to_string());
    t.skills.enabled = true;
    t.google_sheets.access_token = Some("   ".to_string());
    t.google_sheets.service_account_base64 = Some("abc".to_string());
    let mut p = ProjectConfig::default();
    p.github_token = Some("ghp".to_string());
    let f = ToolFilter::new(&strings(&["SHELL"]), None, None, None);
    let tools = builtin_tools(&f, &t, &p, false, true);
    assert!(tools.contains(&"git".to_string()));
    assert!(tools.contains(&"whatsapp_send".to_string()));
    assert!(tools.contains(&"project".to_string()));
    assert!(tools.contains(&"find_skills".to_string()));
    assert!(tools.contains(&"install_skill".to_string()));
    assert!(!tools.contains(&"shell".to_string()));
    assert!(!tools.contains(&"google_sheets".to_string()));
    assert!(!tools.contains(&"memory_search".to_string()));
}

#[test]
fn google_sheets_sources() {
    let mut g = GoogleSheetsToolConfig::default();
    assert!(matches!(google_sheets_source(&g), SheetsSource::Unconfigured));
    g.service_account_base64 = Some(" b64 ".to_string());
    match google_sheets_source(&g) {
        SheetsSource::ServiceAccount(s) => assert_eq!(s, "b64"),
        _ => panic!("expected a service account"),
    }
    g.access_token = Some(" tok ".to_string());
    match google_sheets_source(&g) {
        SheetsSource::Token(s) => assert_eq!(s, "tok"),
        _ => panic!("expected a token"),
    }
    g.access_token = Some("  ".to_string());
    assert!(matches!(google_sheets_source(&g), SheetsSource::Unconfigured));
}

#[test]
fn whatsapp_tool_credentials_are_trimmed() {
    let mut w = WhatsAppToolConfig::default();
    assert!(whatsapp_tool_credentials(&w).is_none());
    w.phone_number_id = Some(" 42 ".to_string());
    w.access_token = Some(" secret ".to_string());
    w.default_language = " en ".to_string();
    assert_eq!(
        whatsapp_tool_credentials(&w),
        Some(("42".to_string(), "secret".to_string(), "en".to_string()))
    );
    w.access_token = Some("  ".to_string());
    assert!(whatsapp_tool_credentials(&w).is_none());
}

#[test]
fn project_token_by_backend() {
    let mut p = ProjectConfig::default();
    assert!(!project_token_present(&p));
    p.jira_token = Some("j".to_string());
    assert!(!project_token_present(&p));
    p.backend = ProjectBackend::Jira;
    assert!(project_token_present(&p));
    p.backend = ProjectBackend::Linear;
    p.linear_api_key = Some(String::new());
    assert!(!project_token_present(&p));
}

#[test]
fn brave_key_or_duckduckgo() {
    assert_eq!(brave_search_key(&Some(" key ".to_string())), Some("key".to_string()));
    assert_eq!(brave_search_key(&Some("   ".to_string())), None);
    assert_eq!(brave_search_key(&None), None);
}

#[test]
fn custom_tools_to_register() {
    let def = |name: &str, command: &str| CustomToolDef {
        name: name.to_string(),
        description: String::new(),
        command: command.to_string(),
        parameters: None,
        working_dir: None,
        timeout_secs: None,
        env: None,
    };
    let defs = vec![def("a", "echo a"), def("b", "  "), def("c", "ls"), def("d", "pwd")];
    let f = ToolFilter::new(&strings(&["C"]), None, None, None);
    assert_eq!(custom_tool_indices(&f, &defs), vec![0, 3]);
}

#[test]
fn delegate_needs_swarm_and_provider() {
    let f = open_filter();
    assert_eq!(delegate_decision(&f, true, true), DelegateDecision::Register);
    assert_eq!(delegate_decision(&f, true, false), DelegateDecision::WarnNoProvider);
    assert_eq!(delegate_decision(&f, false, true), DelegateDecision::Skip);
    let blocked = ToolFilter::new(&Vec::new(), None, None, Some(&strings(&["delegate"])));
    assert_eq!(delegate_decision(&blocked, true, true), DelegateDecision::Skip);
}

#[test]
fn runtime_failure_texts() {
    assert_eq!(runtime_failure(RuntimeType::Docker, true, "boom"), None);
    assert_eq!(
        runtime_failure(RuntimeType::Docker, false, "boom"),
        Some(
            "Configured runtime 'Docker' unavailable: boom. Enable runtime.allow_fallback_to_native to opt in to native fallback."
                .to_string()
        )
    );
}

#[test]
fn tilde_paths() {
    assert_eq!(tilde_suffix("~/skills"), Some("skills".to_string()));
    assert_eq!(tilde_suffix("~"), Some(String::new()));
    assert_eq!(tilde_suffix("/tmp/x"), None);
    assert_eq!(tilde_suffix("~user"), None);
    assert_eq!(skills_install_dir(&None, "/home/u/.zeptoclaw/skills"), "/home/u/.zeptoclaw/skills");
    assert_eq!(skills_install_dir(&Some("/s".to_string()), "/d"), "/s");
}

// --- the provider chain ---

#[test]
fn test_build_runtime_provider_chain_empty_when_no_provider() {
    assert!(provider_chain_names(Vec::new(), false, None).is_none());
}

#[test]
fn test_build_runtime_provider_chain_single_provider() {
    let names = provider_chain_names(strings(&["openai"]), false, None)
        .expect("provider chain should resolve");
    assert_eq!(names, vec!["openai"]);
}

#[test]
fn test_build_runtime_provider_chain_preserves_registry_order() {
    let names = provider_chain_names(strings(&["anthropic", "openai", "groq"]), true, None)
        .expect("provider chain should resolve");
    assert_eq!(names, vec!["anthropic", "openai", "groq"]);
    let label = chain_label(&names);
    assert_eq!(label.matches("->").count(), 2);
    assert!(label.contains("openai"));
}

#[test]
fn test_build_runtime_provider_chain_honors_preferred_fallback_provider() {
    let names = provider_chain_names(strings(&["anthropic", "openai", "groq"]), true, Some("groq"))
        .expect("provider chain should resolve");
    assert_eq!(names, vec!["anthropic", "groq", "openai"]);
}

#[test]
fn test_build_runtime_provider_chain_no_chain_when_fallback_disabled() {
    let names = provider_chain_names(strings(&["anthropic", "openai"]), false, None)
        .expect("provider chain should resolve");
    // Only the highest-priority provider is used
    assert_eq!(names, vec!["anthropic"]);
}

#[test]
fn fallback_preference_edge_cases() {
    let mut v = strings(&["anthropic", "openai", "groq"]);
    apply_fallback_preference(&mut v, Some("  GROQ "));
    assert_eq!(v, strings(&["anthropic", "groq", "openai"]));
    let mut v = strings(&["anthropic", "openai", "groq"]);
    apply_fallback_preference(&mut v, Some("Anthropic"));
    assert_eq!(v, strings(&["anthropic", "openai", "groq"]));
    let mut v = strings(&["anthropic", "openai"]);
    apply_fallback_preference(&mut v, Some("gemini"));
    assert_eq!(v, strings(&["anthropic", "openai"]));
    let mut v = strings(&["anthropic", "openai"]);
    apply_fallback_preference(&mut v, Some("   "));
    assert_eq!(v, strings(&["anthropic", "openai"]));
}

#[test]
fn plugin_chain() {
    let plugins = strings(&["p1", "p2", "p3"]);
    assert_eq!(plugin_chain_names(&plugins, true), plugins);
    assert_eq!(plugin_chain_names(&plugins, false), strings(&["p1"]));
    assert!(plugin_chain_names(&Vec::new(), true).is_empty());
    assert_eq!(chain_label(&plugins), "p1 -> p2 -> p3");
}

// --- the skills prompt ---

#[test]
fn escape_xml_entities() {
    assert_eq!(escape_xml("a<b>&c"), "a&lt;b&gt;&amp;c");
    assert_eq!(escape_xml("&lt;"), "&amp;lt;");
    assert_eq!(escape_xml(""), "");
}

#[test]
fn skills_prompt_text() {
    let skills = vec![SkillSummary {
        name: "git<x>".to_string(),
        description: "Use git & co".to_string(),
        path: "/s/git".to_string(),
        available: true,
    }];
    assert_eq!(skills_prompt(false, true, &skills, ""), "");
    assert_eq!(skills_prompt(true, false, &skills, ""), "");
    assert_eq!(
        skills_prompt(true, true, &skills, ""),
        "<skills>\n  <skill available=\"true\">\n    <name>git&lt;x&gt;</name>\n    <description>Use git &amp; co</description>\n    <location>/s/git</location>\n  </skill>\n</skills>"
    );
    assert_eq!(
        skills_prompt(true, true, &Vec::new(), "body"),
        "<skills>\n</skills>\n\n## Active Skills\n\nbody"
    );
}

#[test]
fn skills_disabled_without_case() {
    let disabled = strings(&["GitHub"]);
    assert!(skill_disabled("github", &disabled));
    assert!(!skill_disabled("gitlab", &disabled));
}

// --- rejected API keys ---

#[test]
fn test_friendly_api_error_401_anthropic() {
    let msg = friendly_api_error("anthropic", 401, "");
    assert!(msg.contains("Invalid API key"));
    assert!(msg.contains("anthropic"));
    assert!(msg.contains("console.anthropic.com"));
}

#[test]
fn test_friendly_api_error_401_openai() {
    let msg = friendly_api_error("openai", 401, "");
    assert!(msg.contains("Invalid API key"));
    assert!(msg.contains("openai"));
    assert!(msg.contains("platform.openai.com"));
}

#[test]
fn test_friendly_api_error_401_openrouter() {
    let msg = friendly_api_error("openrouter", 401, "");
    assert!(msg.contains("Invalid API key"));
    assert!(msg.contains("openrouter"));
    assert!(msg.contains("openrouter.ai/settings/keys"));
}

#[test]
fn test_friendly_api_error_402() {
    let msg = friendly_api_error("anthropic", 402, "");
    assert!(msg.contains("Billing issue"));
}

#[test]
fn test_friendly_api_error_402_openrouter() {
    let msg = friendly_api_error("openrouter", 402, "");
    assert!(msg.contains("Insufficient OpenRouter credits"));
    assert!(msg.contains("openrouter.ai/settings/credits"));
}

#[test]
fn test_friendly_api_error_unknown_status() {
    let msg = friendly_api_error("openai", 500, "");
    assert!(msg.contains("HTTP 500"));
}

#[test]
fn friendly_api_error_reads_json_detail() {
    let msg = friendly_api_error("openai", 429, r#"{"error":{"message":"slow down"}}"#);
    assert_eq!(msg, "Rate limited. Wait a moment and try again.\n  Detail: slow down");
    let msg = friendly_api_error("openai", 404, r#"{"error":"gone"}"#);
    assert_eq!(
        msg,
        "Model not found. Your API key may not have access to the default model.\n  Detail: gone"
    );
    let msg = friendly_api_error("openai", 404, r#"{"error":{"code":3}}"#);
    assert_eq!(msg, "Model not found. Your API key may not have access to the default model.");
    assert_eq!(
        friendly_api_message("groq", 402, None),
        "Billing issue on your groq account. Add a payment method.\n  Billing: https://platform.openai.com/settings/organization/billing"
    );
}

#[test]
fn test_key_check_request_per_provider() {
    let a = key_check_request("anthropic", "sk-ant", None).unwrap();
    assert_eq!(a.url, "https://api.anthropic.com/v1/models");
    assert_eq!(
        a.headers,
        vec![
            ("x-api-key".to_string(), "sk-ant".to_string()),
            ("anthropic-version".to_string(), "2023-06-01".to_string())
        ]
    );
    let o = key_check_request("openai", "sk-1", Some("http://localhost:8080/v1")).unwrap();
    assert_eq!(o.url, "http://localhost:8080/v1/models");
    assert_eq!(o.headers, vec![("Authorization".to_string(), "Bearer sk-1".to_string())]);
    let r = key_check_request("openrouter", "k", None).unwrap();
    assert_eq!(r.url, "https://openrouter.ai/api/v1/key");
    assert!(key_check_request("groq", "k", None).is_none());
}

#[test]
fn test_key_check_outcome() {
    assert_eq!(key_check_outcome("openai", 200, ""), Ok(()));
    assert_eq!(key_check_outcome("openai", 204, "x"), Ok(()));
    let err = key_check_outcome("openai", 401, "{}").unwrap_err();
    assert_eq!(err, friendly_api_error("openai", 401, "{}"));
    assert!(key_check_outcome("anthropic", 500, "").is_err());
}

#[test]
fn test_model_step_sets_shows_and_resets() {
    let mut st = ReplState::new(true);
    let say = |o: SwitchOutcome| match o {
        SwitchOutcome::Say(s) => s,
        _ => panic!("expected text"),
    };
    assert_eq!(say(model_step(&mut st, "/model", "sonnet-x")), "Current model: sonnet-x (default)");
    assert_eq!(say(model_step(&mut st, "/model openai:large-1", "sonnet-x")), "Switched to openai:large-1");
    assert_eq!(st.model_override, Some((Some("openai".to_string()), "large-1".to_string())));
    assert_eq!(say(model_step(&mut st, "/model", "sonnet-x")), "Current model: openai:large-1 (override)");
    let meta = message_metadata(&st);
    assert!(meta.contains(&("model_override".to_string(), "large-1".to_string())));
    assert!(meta.contains(&("provider_override".to_string(), "openai".to_string())));
    assert_eq!(say(model_step(&mut st, "/model small", "sonnet-x")), "Switched to small");
    assert_eq!(st.model_override, Some((None, "small".to_string())));
    assert!(matches!(model_step(&mut st, "/model list", "sonnet-x"), SwitchOutcome::ListModels));
    assert_eq!(say(model_step(&mut st, "/model reset", "sonnet-x")), "Model reset to default: sonnet-x");
    assert_eq!(st.model_override, None);
    assert_eq!(say(model_step(&mut st, "/model :x", "sonnet-x")), "Current model: sonnet-x");
}

#[test]
fn test_persona_step_sets_shows_and_resets() {
    let mut st = ReplState::new(true);
    let say = |o: SwitchOutcome| match o {
        SwitchOutcome::Say(s) => s,
        _ => panic!("expected text"),
    };
    assert_eq!(say(persona_step(&mut st, "/persona")), "Current persona: default");
    assert_eq!(say(persona_step(&mut st, "/persona pirate")), "Persona set to: pirate");
    assert_eq!(st.persona_override, Some("pirate".to_string()));
    assert_eq!(say(persona_step(&mut st, "  /persona  ")), "Current persona: pirate (override)");
    assert!(matches!(persona_step(&mut st, "/persona list"), SwitchOutcome::ListPersonas));
    assert_eq!(say(persona_step(&mut st, "/persona reset")), "Persona reset to default.");
    assert_eq!(st.persona_override, None);
}
