use sbh::ballast::BallastConfig;
use sbh::cli::{
    ballast_command_label, config_command_label, format_bytes, format_duration, resolve_output_mode,
    truncate_path, BallastCommand, ConfigCommand, OutputMode,
};
use sbh::reports::{
    current_version, format_install_report, format_uninstall_report, format_update_report,
    plan_install_sequence, plan_uninstall_cleanup, InstallOptions, InstallReport, InstallStep, UninstallOptions,
    UninstallReport, UpdateReport,
};

fn step(description: &str, done: bool, error: Option<&str>) -> InstallStep {
    InstallStep { description: description.to_string(), done, error: error.map(|e| e.to_string()) }
}

#[test]
fn install_dry_run_generates_plan() {
    let opts = InstallOptions { dry_run: true, ..InstallOptions::default_options() };
    let report = plan_install_sequence(&opts);
    assert!(report.dry_run);
    assert!(report.success);
    assert!(!report.steps.is_empty());
    for step in &report.steps {
        assert!(!step.done);
        assert!(step.error.is_none());
    }
    assert_eq!(report.steps[2].description, "Provision ballast: 10 files x 1024 MB = 10 GB in /var/lib/sbh/ballast");
}

#[test]
fn install_report_format_dry_run() {
    let report = InstallReport {
        steps: vec![step("Create data directory", false, None), step("Write config", false, None)],
        success: true,
        config_path: None,
        data_dir: None,
        ballast_dir: None,
        ballast_files_created: 0,
        ballast_bytes: 0,
        dry_run: true,
    };
    let output = format_install_report(&report);
    assert!(output.contains("dry-run"));
    assert!(output.contains("[PLAN]"));
}

#[test]
fn install_report_format_success() {
    let report = InstallReport {
        steps: vec![step("Wrote config", true, None)],
        success: true,
        config_path: Some("/etc/sbh/config.toml".to_string()),
        data_dir: Some("/var/lib/sbh".to_string()),
        ballast_dir: Some("/var/lib/sbh/ballast".to_string()),
        ballast_files_created: 10,
        ballast_bytes: 10_737_418_240,
        dry_run: false,
    };
    let output = format_install_report(&report);
    assert!(output.contains("[DONE]"));
    assert!(output.contains("10 files = 10 GB"));
    assert!(output.contains("/etc/sbh/config.toml"));
}

#[test]
fn install_report_format_failure() {
    let report = InstallReport {
        steps: vec![step("Create data dir", false, Some("permission denied"))],
        success: false,
        config_path: None,
        data_dir: None,
        ballast_dir: None,
        ballast_files_created: 0,
        ballast_bytes: 0,
        dry_run: false,
    };
    let output = format_install_report(&report);
    assert!(output.contains("[FAIL]"));
    assert!(output.contains("permission denied"));
}

#[test]
fn uninstall_report_format() {
    let report = UninstallReport {
        steps: vec![step("Removed ballast", true, None), step("Removed data dir", true, None)],
        success: true,
        bytes_reclaimed: 10_737_418_240,
        dry_run: false,
    };
    let output = format_uninstall_report(&report);
    assert!(output.contains("uninstall"));
    assert!(output.contains("[DONE]"));
    assert!(output.contains("10 GB"));
}

#[test]
fn install_options_default_matches_config() {
    let opts = InstallOptions::default_options();
    let config = BallastConfig::default();
    assert_eq!(opts.ballast_count, config.file_count as usize);
    assert_eq!(opts.ballast_size_bytes, config.file_size_bytes);
}

#[test]
fn new_install_report_is_empty() {
    let mut report = InstallReport::new(false);
    assert!(!report.success && !report.dry_run && report.steps.is_empty());
    report.step_ok("a".to_string());
    report.step_fail("b".to_string(), "e".to_string());
    report.step_plan("c".to_string());
    let out = format_install_report(&report);
    assert_eq!(out, "sbh install report:\n\n  [DONE] a\n  [FAIL] b\n         error: e\n  [PLAN] c\n");
}

#[test]
fn current_version_is_not_empty() {
    let ver = current_version();
    assert!(!ver.is_empty());
}

#[test]
fn report_step_tracking() {
    let mut report = UpdateReport::new("0.1.0", false, false);
    report.step_ok("Step 1".to_string());
    report.step_fail("Step 2".to_string(), "error".to_string());
    report.step_plan("Step 3".to_string());
    assert_eq!(report.steps.len(), 3);
    assert!(report.steps[0].done);
    assert!(!report.steps[1].done);
    assert!(report.steps[1].error.is_some());
    assert!(!report.steps[2].done);
    assert!(report.steps[2].error.is_none());
}

#[test]
fn format_check_only_up_to_date() {
    let mut report = UpdateReport::new("0.1.0", true, false);
    report.update_available = false;
    report.success = true;
    let output = format_update_report(&report);
    assert!(output.contains("up to date"));
}

#[test]
fn format_check_only_update_available() {
    let mut report = UpdateReport::new("0.1.0", true, false);
    report.update_available = true;
    report.target_version = Some("v0.2.0".to_string());
    report.success = true;
    let output = format_update_report(&report);
    assert!(output.contains("Update available"));
    assert!(output.contains("v0.2.0"));
}

#[test]
fn format_applied() {
    let mut report = UpdateReport::new("0.1.0", false, false);
    report.applied = true;
    report.success = true;
    let output = format_update_report(&report);
    assert!(output.contains("applied successfully"));
}

#[test]
fn format_dry_run() {
    let mut report = UpdateReport::new("0.1.0", false, true);
    report.success = true;
    report.step_plan("Would download artifact".to_string());
    let output = format_update_report(&report);
    assert!(output.contains("Dry-run"));
    assert!(output.contains("[PLAN]"));
}

#[test]
fn format_follow_up() {
    let mut report = UpdateReport::new("0.1.0", false, false);
    report.applied = true;
    report.success = true;
    report.follow_up.push("Restart the service".to_string());
    let output = format_update_report(&report);
    assert!(output.contains("Restart the service"));
}

#[test]
fn output_mode_resolution_honors_precedence() {
    assert_eq!(resolve_output_mode(true, Some("human"), true), OutputMode::Json);
    assert_eq!(resolve_output_mode(false, Some("json"), true), OutputMode::Json);
    assert_eq!(resolve_output_mode(false, Some("human"), false), OutputMode::Human);
    assert_eq!(resolve_output_mode(false, Some("auto"), true), OutputMode::Human);
    assert_eq!(resolve_output_mode(false, None, false), OutputMode::Json);
    assert_eq!(resolve_output_mode(false, Some("  JSON \n"), true), OutputMode::Json);
    assert_eq!(resolve_output_mode(false, Some("jsonx"), true), OutputMode::Human);
}

#[test]
fn cli_formatting_helpers() {
    assert_eq!(format_bytes(512), "512 B");
    assert_eq!(format_bytes(1536), "1.5 KB");
    assert_eq!(format_bytes(10_737_418_240), "10.0 GB");
    assert_eq!(format_duration(59), "59s");
    assert_eq!(format_duration(86_400 + 7200), "1d 2h");
    assert_eq!(truncate_path("/short", 10), "/short");
    assert_eq!(truncate_path("/a/very/long/path", 8), ".../path");
    assert_eq!(ballast_command_label(None), "ballast");
    assert_eq!(ballast_command_label(Some(BallastCommand::Verify)), "ballast verify");
    assert_eq!(config_command_label(Some(ConfigCommand::SetValue)), "config set");
}

#[test]
fn uninstall_dry_run_plans_removals() {
    let opts = UninstallOptions {
        keep_data: false,
        keep_ballast: false,
        dry_run: true,
        ballast_dir: "/var/lib/sbh/ballast".to_string(),
        data_dir: "/var/lib/sbh".to_string(),
        config_file: "/etc/sbh/config.toml".to_string(),
    };
    let r = plan_uninstall_cleanup(&opts);
    assert!(r.dry_run && r.success && r.bytes_reclaimed == 0);
    let d: Vec<&str> = r.steps.iter().map(|s| s.description.as_str()).collect();
    assert_eq!(d, vec![
        "Remove ballast directory: /var/lib/sbh/ballast",
        "Remove data directory: /var/lib/sbh",
        "Remove config: /etc/sbh/config.toml",
    ]);
    let kept = plan_uninstall_cleanup(&UninstallOptions { keep_data: true, ..opts });
    assert_eq!(kept.steps.len(), 1);
}
