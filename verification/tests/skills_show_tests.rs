use zeptoclaw::cli::skills::compute_max_name_len;
use zeptoclaw::cli::skills::format_skill_show;
use zeptoclaw::cli::skills::join_strings;
use zeptoclaw::cli::skills::skill_list_line;
use zeptoclaw::cli::skills::EnvSpec;
use zeptoclaw::cli::skills::SkillShow;

/// Verify that `compute_max_name_len` returns the correct padding value.
#[test]
fn test_env_spec_display_format() {
    let env_needed = vec![
        EnvSpec {
            name: "SHORT".to_string(),
            description: "A short name".to_string(),
            required: true,
        },
        EnvSpec {
            name: "MUCH_LONGER_NAME".to_string(),
            description: "A longer name".to_string(),
            required: false,
        },
        EnvSpec {
            name: "MED".to_string(),
            description: "Medium".to_string(),
            required: true,
        },
    ];

    let max_len = compute_max_name_len(&env_needed);
    assert_eq!(
        max_len,
        "MUCH_LONGER_NAME".len(),
        "max name len should be length of 'MUCH_LONGER_NAME'"
    );

    // Verify empty list returns 0.
    let empty: Vec<EnvSpec> = vec![];
    assert_eq!(
        compute_max_name_len(&empty),
        0,
        "max name len of empty list should be 0"
    );

    // Verify single-entry list returns that entry's name length.
    let single = vec![EnvSpec {
        name: "ONLY_ONE".to_string(),
        description: "desc".to_string(),
        required: true,
    }];
    assert_eq!(compute_max_name_len(&single), "ONLY_ONE".len());
}

#[test]
fn skill_show_full_output() {
    let skill = SkillShow {
        name: "weather".to_string(),
        version: Some("1.2.0".to_string()),
        author: None,
        license: Some("MIT".to_string()),
        tags: vec!["api".to_string(), "daily".to_string()],
        depends: vec![("http".to_string(), true), ("geo".to_string(), false)],
        conflicts: vec![("old-weather".to_string(), true)],
        env_needed: vec![
            EnvSpec { name: "KEY".to_string(), description: "API key".to_string(), required: true },
            EnvSpec { name: "UNITS_X".to_string(), description: "Units".to_string(), required: false },
        ],
        available: false,
        content: "# Weather".to_string(),
    };
    let expected = [
        "Name:        weather",
        "Version:     1.2.0",
        "License:     MIT",
        "Tags:        api, daily",
        "Depends:     http \u{2713}, geo \u{2717}",
        "Conflicts:   old-weather (installed \u{2717})",
        "Env needed:",
        "  KEY       required   API key",
        "  UNITS_X   optional   Units",
        "Available:   no",
        "",
        "--- Content ---",
        "# Weather",
    ]
    .join("\n");
    assert_eq!(format_skill_show(&skill), expected);
}

#[test]
fn skill_show_minimal_output() {
    let skill = SkillShow {
        name: "x".to_string(),
        version: None,
        author: None,
        license: None,
        tags: vec![],
        depends: vec![],
        conflicts: vec![("y".to_string(), false)],
        env_needed: vec![],
        available: true,
        content: String::new(),
    };
    assert_eq!(
        format_skill_show(&skill),
        "Name:        x\nConflicts:   y (not installed \u{2713})\nAvailable:   yes\n\n--- Content ---\n"
    );
}

#[test]
fn skills_list_lines_and_joins() {
    assert_eq!(skill_list_line("git", "builtin", true), "  - git (builtin, ready)");
    assert_eq!(
        skill_list_line("gh", "workspace", false),
        "  - gh (workspace, missing requirements)"
    );
    assert_eq!(join_strings(&vec!["a".to_string(), "b".to_string()], ", "), "a, b");
    assert_eq!(join_strings(&Vec::new(), ", "), "");
}
