use zeptoclaw::config::CustomToolDef;
use zeptoclaw::validate::config_check;
use zeptoclaw::validate::check_config_text;
use zeptoclaw::validate::levenshtein;
use zeptoclaw::validate::known_top_level;
use zeptoclaw::validate::Diagnostic;
use zeptoclaw::validate::suggest_field;
use zeptoclaw::validate::validate_config;
use zeptoclaw::validate::validate_custom_tools;
use zeptoclaw::validate::DiagnosticLevel;
use zeptoclaw::validate::JsonValue;

#[test]
fn test_levenshtein_identical() {
    assert_eq!(levenshtein("hello", "hello"), 0);
}

#[test]
fn test_levenshtein_one_edit() {
    assert_eq!(levenshtein("hello", "helo"), 1);
}

#[test]
fn test_levenshtein_different() {
    assert!(levenshtein("hello", "world") > 3);
}

#[test]
fn test_levenshtein_all_substituted() {
    assert_eq!(levenshtein("abc", "xyz"), 3);
    assert_eq!(levenshtein("hello", "world"), 4);
}

#[test]
fn test_levenshtein_empty_and_swap() {
    assert_eq!(levenshtein("", "abc"), 3);
    assert_eq!(levenshtein("kitten", "sitting"), 3);
    assert_eq!(levenshtein("ab", "ba"), 2);
}

#[test]
fn test_suggest_field_match() {
    let result = suggest_field("gatway", &known_top_level());
    assert!(result.is_some());
    assert!(result.unwrap().contains("gateway"));
}

#[test]
fn test_suggest_field_no_match() {
    let result = suggest_field("xyzabc", &known_top_level());
    assert!(result.is_none());
}

#[test]
fn test_suggest_field_small_lists() {
    let result = suggest_field("agnets", &["agents", "channels", "providers"]);
    assert_eq!(result, Some("did you mean 'agents'?".to_string()));
    assert_eq!(suggest_field("zzzzzzz", &["agents", "channels"]), None);
}

#[test]
fn test_suggest_field_first_of_closest() {
    assert_eq!(suggest_field("ab", &["ax", "ay"]), Some("did you mean 'ax'?".to_string()));
}

fn obj(members: Vec<(&str, JsonValue)>) -> JsonValue {
    JsonValue::Object(members.into_iter().map(|(k, v)| (k.to_string(), v)).collect())
}

#[test]
fn test_validate_config_not_object() {
    let d = validate_config(&JsonValue::Array(vec![]));
    assert_eq!(d.len(), 1);
    assert_eq!(d[0].level, DiagnosticLevel::Error);
    assert_eq!(d[0].message, "Config must be a JSON object");
}

#[test]
fn test_validate_config_unknown_and_channels() {
    let config = obj(vec![
        ("agnets", JsonValue::Null),
        (
            "agents",
            obj(vec![("defaults", obj(vec![("modle", JsonValue::String("x".to_string()))]))]),
        ),
        (
            "channels",
            obj(vec![(
                "telegram",
                obj(vec![("enabled", JsonValue::Bool(true)), ("allow_from", JsonValue::Array(vec![]))]),
            )]),
        ),
    ]);
    let d = validate_config(&config);
    assert_eq!(d.len(), 4);
    assert_eq!(d[0].level, DiagnosticLevel::Pass);
    assert_eq!(d[0].message, "Valid JSON");
    assert_eq!(d[1].level, DiagnosticLevel::Error);
    assert_eq!(d[1].path, "agnets");
    assert_eq!(d[1].message, "Unknown field 'agnets' \u{2014} did you mean 'agents'?");
    assert_eq!(d[2].path, "agents.defaults.modle");
    assert_eq!(d[2].message, "Unknown field 'modle' \u{2014} did you mean 'model'?");
    assert_eq!(d[3].level, DiagnosticLevel::Warn);
    assert_eq!(d[3].path, "channels.telegram.allow_from");
}

#[test]
fn test_validate_config_all_known() {
    let d = validate_config(&obj(vec![("agents", obj(vec![]))]));
    assert_eq!(d.len(), 2);
    assert_eq!(d[1].message, "All fields recognized");
    assert_eq!(d[1].to_string(), "[OK] All fields recognized");
}

fn tool(name: &str, command: &str, description: &str) -> CustomToolDef {
    CustomToolDef {
        name: name.to_string(),
        description: description.to_string(),
        command: command.to_string(),
        parameters: None,
        working_dir: None,
        timeout_secs: None,
        env: None,
    }
}

#[test]
fn test_validate_custom_tools_messages() {
    let tools = vec![
        tool("cpu_temp", "cat /x", "Read CPU temperature"),
        tool("9bad", "  ", &"d".repeat(61)),
        tool("shell", "ls", "x"),
    ];
    let w = validate_custom_tools(&tools);
    assert_eq!(
        w,
        vec![
            "custom_tools[1]: name '9bad' invalid \u{2014} must start with a letter and contain only letters, digits, and underscores".to_string(),
            "custom_tools[1]: command must not be empty".to_string(),
            "custom_tools[1]: description exceeds 60 chars (61). Shorter descriptions save tokens.".to_string(),
            "custom_tools[2]: name 'shell' conflicts with built-in tool".to_string(),
        ]
    );
}

#[test]
fn test_config_check_reports_counts_and_fails_on_errors() {
    let diags = vec![
        Diagnostic { level: DiagnosticLevel::Pass, path: String::new(), message: "Valid JSON".to_string() },
        Diagnostic { level: DiagnosticLevel::Warn, path: "agent".to_string(), message: "Unknown field".to_string() },
        Diagnostic { level: DiagnosticLevel::Error, path: "gateway.port".to_string(), message: "bad".to_string() },
    ];
    let r = config_check(&diags, &vec!["tool x".to_string()], true, false);
    assert_eq!(
        r.lines,
        vec![
            "[OK] Valid JSON",
            "[WARN] agent: Unknown field",
            "[ERROR] gateway.port: bad",
            "[WARN] tool x",
            "[hint] Workspace is set but coding tools (grep, find) are disabled. Enable with `tools.coding_tools: true` or use `--template coder`.",
            "\nFound 1 error(s), 2 warning(s)",
        ]
    );
    assert_eq!(r.outcome, Err("Configuration validation failed with 1 error(s)".to_string()));
}

#[test]
fn test_config_check_clean() {
    let diags = vec![Diagnostic { level: DiagnosticLevel::Pass, path: String::new(), message: "Valid JSON".to_string() }];
    let r = config_check(&diags, &vec![], false, false);
    assert_eq!(r.lines, vec!["[OK] Valid JSON", "\nConfiguration looks good!"]);
    assert_eq!(r.outcome, Ok(()));
}

#[test]
fn test_levenshtein_counts_characters() {
    assert_eq!(levenshtein("é", "a"), 1);
    assert_eq!(levenshtein("日本", ""), 2);
    assert_eq!(levenshtein("", "日本"), 2);
    assert_eq!(levenshtein("café", "cafe"), 1);
    assert_eq!(levenshtein("日本", "日本"), 0);
}

#[test]
fn test_levenshtein_triangle_and_bounds() {
    let words = ["kitten", "sitting", "mitten", "", "日本語"];
    for a in words.iter() {
        for b in words.iter() {
            let d = levenshtein(a, b);
            assert_eq!(d, levenshtein(b, a));
            let (la, lb) = (a.chars().count(), b.chars().count());
            assert!(d >= la.abs_diff(lb));
            assert!(d <= la.max(lb));
            for c in words.iter() {
                assert!(levenshtein(a, c) <= d + levenshtein(b, c));
            }
        }
    }
    assert_eq!(levenshtein("kitten", "sitting"), 3);
    assert_eq!(levenshtein("kitten", "mitten"), 1);
}

#[test]
fn test_check_config_text_parses_then_validates() {
    assert!(check_config_text("{not json").is_err());
    assert!(check_config_text("").is_err());

    let d = check_config_text("[1, 2]").unwrap();
    assert_eq!(d.len(), 1);
    assert_eq!(d[0].level, DiagnosticLevel::Error);
    assert_eq!(d[0].message, "Config must be a JSON object");

    let d = check_config_text(r#"{"agents": {"defaults": {"model": "m"}}, "gateway": {}}"#).unwrap();
    assert_eq!(d.len(), 2);
    assert_eq!(d[0].message, "Valid JSON");
    assert_eq!(d[1].message, "All fields recognized");

    let d = check_config_text(r#"{"agentz": 1}"#).unwrap();
    assert_eq!(d[0].message, "Valid JSON");
    assert_eq!(d[1].level, DiagnosticLevel::Error);
    assert_eq!(d[1].path, "agentz");
    assert!(d[1].message.contains("did you mean 'agents'?"));
}
