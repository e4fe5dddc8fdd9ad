use zeptoclaw::cli::tools::find_tool;
use zeptoclaw::cli::tools::tool_info_text;
use zeptoclaw::cli::tools::tools_summary_text;
use zeptoclaw::cli::tools::ToolConfigFacts;

fn facts() -> ToolConfigFacts {
    ToolConfigFacts {
        whatsapp_phone_number_id: None,
        whatsapp_access_token: None,
        google_sheets_access_token: None,
        google_sheets_service_account_base64: None,
        google_access_token: None,
        google_client_id: None,
        telegram_enabled: Some(true),
        slack_enabled: None,
        discord_enabled: None,
        r8r_api_url_set: false,
    }
}

#[test]
fn tools_info_texts() {
    assert_eq!(
        tool_info_text("echo", &facts(), false),
        "Tool: echo\n----------------------------------------\nDescription: Echo input back (testing)\nStatus: ready"
    );
    assert_eq!(
        tool_info_text("r8r", &facts(), false),
        "Tool: r8r\n----------------------------------------\nDescription: Execute R8r deterministic workflows\nStatus: needs setup\nSetup: Set R8R_API_URL env var"
    );
    assert_eq!(
        tool_info_text("grep", &facts(), true),
        "Tool: grep\n----------------------------------------\nDescription: Search file contents by regex pattern\nStatus: ready (coding tools enabled)"
    );
    assert!(tool_info_text("find", &facts(), false).ends_with("or set env var `ZEPTOCLAW_TOOLS_CODING_TOOLS=true`"));
    assert_eq!(
        tool_info_text("nope", &facts(), false),
        "Unknown tool 'nope'. Run 'zeptoclaw tools list' to see all tools."
    );
    assert!(find_tool("nope").is_none());
    assert_eq!(find_tool("shell").unwrap().name, "shell");
}

#[test]
fn tools_summary_text_lines() {
    let text = tools_summary_text(&facts(), false);
    assert!(text.starts_with("  + echo\n"));
    assert!(text.contains("  + message\n"));
    assert!(text.contains("  - r8r (Set R8R_API_URL env var)\n"));
    assert!(text.contains("  o grep (opt-in: --template coder)\n"));
    assert!(text.ends_with("\n\n  16 ready, 6 need setup/activation"));
}
