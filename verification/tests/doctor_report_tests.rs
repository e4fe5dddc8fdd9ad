use zeptoclaw::cli::doctor::check_binary;
use zeptoclaw::cli::doctor::check_config_loaded;
use zeptoclaw::cli::doctor::check_memory;
use zeptoclaw::cli::doctor::check_workspace_writable;
use zeptoclaw::cli::doctor::doctor_report;
use zeptoclaw::cli::doctor::DiagItem;
use zeptoclaw::cli::doctor::Severity;

#[test]
fn machine_checks() {
    let mut d: Vec<DiagItem> = Vec::new();
    check_config_loaded(&mut d);
    check_workspace_writable("/w", false, Ok(()), &mut d);
    check_workspace_writable("/w", true, Err("denied".to_string()), &mut d);
    check_workspace_writable("/w", true, Ok(()), &mut d);
    check_binary("git", true, &mut d);
    check_binary("curl", false, &mut d);
    check_memory(false, Ok(()), &mut d);
    check_memory(true, Err("bad".to_string()), &mut d);
    let msgs: Vec<&str> = d.iter().map(|x| x.message.as_str()).collect();
    assert_eq!(
        msgs,
        vec![
            "Configuration loaded successfully",
            "Workspace directory does not exist: /w",
            "Workspace not writable: /w (denied)",
            "Workspace writable: /w",
            "git found",
            "curl not found in PATH",
            "No long-term memory file yet (created on first use)",
            "Long-term memory file unreadable: bad",
        ]
    );
    assert_eq!(d[1].severity, Severity::Fail);
    assert_eq!(d[5].severity, Severity::Warn);
    assert_eq!(d[6].severity, Severity::Pass);
}

#[test]
fn report_groups_categories() {
    let mut d: Vec<DiagItem> = Vec::new();
    check_config_loaded(&mut d);
    check_binary("git", true, &mut d);
    check_binary("sh", false, &mut d);
    let report = doctor_report(&d);
    assert_eq!(
        report,
        "ZeptoClaw Doctor\n================\n\n[ok]   config         Configuration loaded successfully\n\n[ok]   environment    git found\n[warn] environment    sh not found in PATH\n\n2 ok, 1 warnings, 0 errors"
    );
    check_memory(true, Err("x".to_string()), &mut d);
    assert!(doctor_report(&d).ends_with("1 errors\n\nFix the errors above to ensure ZeptoClaw works correctly."));
}
