use zeptoclaw::cli::common::apply_template_overrides;
use zeptoclaw::cli::template::{resolve_template, template_list_text, template_origin, template_show_text};
use zeptoclaw::templates::{has_tag, AgentTemplate, TemplateRegistry};

fn template(name: &str, description: &str, prompt: &str, tags: &[&str]) -> AgentTemplate {
    AgentTemplate {
        name: name.to_string(),
        description: description.to_string(),
        system_prompt: prompt.to_string(),
        model: None,
        max_tokens: None,
        temperature_bits: None,
        allowed_tools: None,
        blocked_tools: None,
        max_tool_iterations: None,
        tags: tags.iter().map(|t| t.to_string()).collect(),
        shell_allowlist: None,
        max_token_budget: None,
        max_tool_calls: None,
    }
}

#[test]
fn test_builtin_coder_exists() {
    let registry = TemplateRegistry::new();
    let coder = registry.get("coder");
    assert!(coder.is_some());
    let coder = coder.unwrap();
    assert_eq!(coder.name, "coder");
    assert!(coder.allowed_tools.is_none());
    assert!(coder.tags.contains(&"development".to_string()));
    assert!(coder.tags.contains(&"coding".to_string()));
}

#[test]
fn test_builtin_researcher_exists() {
    let registry = TemplateRegistry::new();
    let researcher = registry.get("researcher");
    assert!(researcher.is_some());
    let researcher = researcher.unwrap();
    assert_eq!(researcher.name, "researcher");
    assert!(researcher.allowed_tools.is_some());
    let tools = researcher.allowed_tools.as_ref().unwrap();
    assert!(tools.contains(&"web_search".to_string()));
    assert!(tools.contains(&"web_fetch".to_string()));
    assert!(tools.contains(&"memory_search".to_string()));
    assert!(researcher.tags.contains(&"research".to_string()));
}

#[test]
fn test_builtin_writer_exists() {
    let registry = TemplateRegistry::new();
    let writer = registry.get("writer");
    assert!(writer.is_some());
    let writer = writer.unwrap();
    assert_eq!(writer.name, "writer");
    assert!(writer.allowed_tools.is_some());
    let tools = writer.allowed_tools.as_ref().unwrap();
    assert!(tools.contains(&"read_file".to_string()));
    assert!(tools.contains(&"write_file".to_string()));
    assert!(tools.contains(&"edit_file".to_string()));
    assert!(writer.tags.contains(&"writing".to_string()));
}

#[test]
fn test_builtin_assistant_exists() {
    let registry = TemplateRegistry::new();
    let assistant = registry.get("assistant");
    assert!(assistant.is_some());
    let assistant = assistant.unwrap();
    assert_eq!(assistant.name, "assistant");
    assert!(assistant.allowed_tools.is_none());
    assert!(assistant.tags.contains(&"general".to_string()));
}

#[test]
fn test_builtin_task_manager_exists() {
    let registry = TemplateRegistry::new();
    let tpl = registry.get("task-manager");
    assert!(tpl.is_some());
    let tpl = tpl.unwrap();
    assert_eq!(tpl.name, "task-manager");
    let tools = tpl.allowed_tools.as_ref().unwrap();
    assert!(tools.contains(&"reminder".to_string()));
    assert!(tools.contains(&"longterm_memory".to_string()));
    assert!(tools.contains(&"message".to_string()));
    assert!(tools.contains(&"cron".to_string()));
    assert!(tpl.tags.contains(&"productivity".to_string()));
    assert!(tpl.tags.contains(&"personal-assistant".to_string()));
}

#[test]
fn test_task_manager_by_tag() {
    let registry = TemplateRegistry::new();
    let personal = registry.list_by_tag("personal-assistant");
    assert_eq!(personal.len(), 1);
    assert_eq!(personal[0].name, "task-manager");
}

#[test]
fn test_lookup_returns_none_for_unknown() {
    let registry = TemplateRegistry::new();
    assert!(registry.get("nonexistent-template").is_none());
    assert!(registry.get("").is_none());
    assert!(registry.get("CODER").is_none());
}

#[test]
fn test_list_all_templates() {
    let registry = TemplateRegistry::new();
    let all = registry.list();
    assert_eq!(all.len(), 5);

    let names: Vec<&str> = all.iter().map(|t| t.name.as_str()).collect();
    assert!(names.contains(&"coder"));
    assert!(names.contains(&"researcher"));
    assert!(names.contains(&"writer"));
    assert!(names.contains(&"assistant"));
    assert!(names.contains(&"task-manager"));
}

#[test]
fn test_list_by_tag() {
    let registry = TemplateRegistry::new();

    let dev = registry.list_by_tag("development");
    assert_eq!(dev.len(), 1);
    assert_eq!(dev[0].name, "coder");

    let research = registry.list_by_tag("research");
    assert_eq!(research.len(), 1);
    assert_eq!(research[0].name, "researcher");

    let general = registry.list_by_tag("general");
    assert_eq!(general.len(), 1);
    assert_eq!(general[0].name, "assistant");

    let empty = registry.list_by_tag("nonexistent-tag");
    assert!(empty.is_empty());
}

#[test]
fn test_register_custom_template() {
    let mut registry = TemplateRegistry::new();
    let custom = AgentTemplate {
        name: "devops".to_string(),
        description: "DevOps engineer".to_string(),
        system_prompt: "You are a DevOps engineer.".to_string(),
        model: Some("mistral-large".to_string()),
        max_tokens: Some(4096),
        temperature_bits: Some(0.3f32.to_bits()),
        allowed_tools: Some(vec!["shell".to_string()]),
        blocked_tools: None,
        max_tool_iterations: Some(10),
        tags: vec!["devops".to_string(), "infrastructure".to_string()],
        shell_allowlist: None,
        max_token_budget: None,
        max_tool_calls: None,
    };

    registry.register(custom);
    assert_eq!(registry.list().len(), 6);

    let devops = registry.get("devops").unwrap();
    assert_eq!(devops.model, Some("mistral-large".to_string()));
    assert_eq!(devops.max_tokens, Some(4096));
    assert_eq!(devops.temperature_bits.map(f32::from_bits), Some(0.3));
    assert_eq!(devops.max_tool_iterations, Some(10));
}

#[test]
fn test_custom_template_overrides_builtin() {
    let mut registry = TemplateRegistry::new();

    let original = registry.get("coder").unwrap();
    assert!(original.model.is_none());

    let custom_coder = AgentTemplate {
        name: "coder".to_string(),
        description: "Custom coder".to_string(),
        system_prompt: "You are a Rust expert.".to_string(),
        model: Some("sonnet-4-5-20250929".to_string()),
        max_tokens: None,
        temperature_bits: None,
        allowed_tools: Some(vec!["shell".to_string(), "read_file".to_string()]),
        blocked_tools: None,
        max_tool_iterations: None,
        tags: vec!["development".to_string(), "rust".to_string()],
        shell_allowlist: None,
        max_token_budget: None,
        max_tool_calls: None,
    };
    registry.register(custom_coder);

    let overridden = registry.get("coder").unwrap();
    assert_eq!(overridden.description, "Custom coder");
    assert_eq!(overridden.model, Some("sonnet-4-5-20250929".to_string()));
    assert!(overridden.tags.contains(&"rust".to_string()));

    assert_eq!(registry.list().len(), 5);
}

#[test]
fn test_names_list() {
    let registry = TemplateRegistry::new();
    let names = registry.names();
    assert_eq!(names.len(), 5);
    assert!(names.contains(&"coder"));
    assert!(names.contains(&"researcher"));
    assert!(names.contains(&"writer"));
    assert!(names.contains(&"assistant"));
    assert!(names.contains(&"task-manager"));
}

#[test]
fn test_default_impl_matches_new() {
    let from_new = TemplateRegistry::new();
    let from_default = TemplateRegistry::default();
    assert_eq!(from_new.names().len(), from_default.names().len());
}

#[test]
fn test_builtins_use_none_for_all_tools() {
    let registry = TemplateRegistry::new();
    assert!(registry.get("coder").unwrap().allowed_tools.is_none());
    assert!(registry.get("assistant").unwrap().allowed_tools.is_none());
}

#[test]
fn test_merge_templates_counts_and_overrides() {
    let mut registry = TemplateRegistry::new();
    assert_eq!(registry.list().len(), 5);
    let mut custom_coder = template("coder", "Custom coder from file", "You are a Go expert.", &["development", "go"]);
    custom_coder.model = Some("mistral-large".to_string());
    let translator = template(
        "translator",
        "Language translator",
        "You translate text between languages.",
        &["translation"],
    );
    let count = registry.merge(vec![custom_coder, translator]);
    assert_eq!(count, 2);
    assert_eq!(registry.list().len(), 6);
    let coder = registry.get("coder").unwrap();
    assert_eq!(coder.description, "Custom coder from file");
    assert_eq!(coder.model, Some("mistral-large".to_string()));
    assert_eq!(registry.get("translator").unwrap().description, "Language translator");
}

#[test]
fn test_merge_later_template_wins() {
    let mut registry = TemplateRegistry::new();
    let count = registry.merge(vec![
        template("ops", "first", "p", &[]),
        template("ops", "second", "p", &[]),
    ]);
    assert_eq!(count, 2);
    assert_eq!(registry.list().len(), 6);
    assert_eq!(registry.get("ops").unwrap().description, "second");
}

#[test]
fn test_register_then_get_keeps_others() {
    let mut registry = TemplateRegistry::new();
    registry.register(template("zeta", "Z", "p", &["x"]));
    assert_eq!(registry.get("zeta").unwrap().description, "Z");
    assert_eq!(registry.get("writer").unwrap().name, "writer");
    assert_eq!(registry.list_by_tag("x").len(), 1);
}

#[test]
fn test_sorted_by_name() {
    let mut registry = TemplateRegistry::new();
    registry.register(template("alpha", "A", "p", &[]));
    let names: Vec<&str> = registry.sorted_by_name().iter().map(|t| t.name.as_str()).collect();
    assert_eq!(names, vec!["alpha", "assistant", "coder", "researcher", "task-manager", "writer"]);
}

#[test]
fn test_has_tag() {
    let t = template("t", "d", "p", &["a", "coding"]);
    assert!(has_tag(&t, "coding"));
    assert!(!has_tag(&t, "code"));
}

#[test]
fn test_template_origin() {
    assert_eq!(template_origin("coder"), "built-in");
    assert_eq!(template_origin("task-manager"), "built-in");
    assert_eq!(template_origin("devops"), "user");
}

#[test]
fn test_template_list_text() {
    let mut registry = TemplateRegistry::new();
    registry.register(template("devops", "DevOps engineer", "p", &["ops"]));
    let text = template_list_text(&registry);
    let expected = [
        "Templates:",
        "  - assistant (built-in) — Helpful general assistant for everyday tasks and questions",
        "  - coder (built-in) — Expert software engineer that writes clean, well-tested code [+grep,find]",
        "  - devops (user) — DevOps engineer",
        "  - researcher (built-in) — Research assistant that finds, analyzes, and summarizes information",
        "  - task-manager (built-in) — AI project manager that captures tasks, sets reminders, and tracks progress",
        "  - writer (built-in) — Professional writer that produces clear, concise, well-structured content",
    ]
    .join("\n");
    assert_eq!(text, expected);
}

#[test]
fn test_template_show_text() {
    let mut t = template("devops", "DevOps engineer", "You are a DevOps engineer.", &["ops", "coding"]);
    t.model = Some("mistral-large".to_string());
    t.max_tokens = Some(4096);
    t.allowed_tools = Some(vec!["shell".to_string(), "read_file".to_string()]);
    let text = template_show_text(&t, Some("0.3"));
    let expected = [
        "Name: devops",
        "Description: DevOps engineer",
        "Model override: mistral-large",
        "Max tokens override: 4096",
        "Temperature override: 0.3",
        "Allowed tools: shell, read_file",
        "Tags: ops, coding",
        "Activates coding tools: grep, find",
        "  (disabled by default — automatically enabled by this template)",
        "",
        "System prompt:",
        "You are a DevOps engineer.",
    ]
    .join("\n");
    assert_eq!(text, expected);
}

#[test]
fn test_template_show_text_minimal() {
    let t = template("bare", "Bare", "Hi.", &[]);
    assert_eq!(template_show_text(&t, None), "Name: bare\nDescription: Bare\n\nSystem prompt:\nHi.");
}

#[test]
fn test_resolve_template() {
    let registry = TemplateRegistry::new();
    assert_eq!(resolve_template(&registry, "writer").unwrap().name, "writer");
    let err = match resolve_template(&registry, "nope") {
        Ok(_) => panic!("expected an error"),
        Err(e) => e,
    };
    assert_eq!(
        err,
        "Template 'nope' not found. Available templates: assistant, coder, researcher, task-manager, writer"
    );
}

#[test]
fn test_apply_template_overrides() {
    let mut t = template("devops", "d", "p", &[]);
    let s = apply_template_overrides(&t, "sonnet-default", 8192, 20);
    assert_eq!(s.model, "sonnet-default");
    assert_eq!(s.max_tokens, 8192);
    assert_eq!(s.max_tool_iterations, 20);
    t.model = Some("mistral-large".to_string());
    t.max_tokens = Some(4096);
    t.max_tool_iterations = Some(10);
    let s = apply_template_overrides(&t, "sonnet-default", 8192, 20);
    assert_eq!(s.model, "mistral-large");
    assert_eq!(s.max_tokens, 4096);
    assert_eq!(s.max_tool_iterations, 10);
}
