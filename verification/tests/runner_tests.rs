use ccusage_ui::errors::AppError;
use ccusage_ui::models::NormalizedUsageRequest;
use ccusage_ui::runner::{
    build_daily_args, candidate_paths, captured_output, command_environment, command_line,
    executable_names, install_dirs, resolve_ccusage_path, search_paths, truncate,
    version_from_output, STDERR_LIMIT,
};
use ccusage_ui::settings::Settings;

#[test]
fn builds_args_without_shell_string() {
    let settings = Settings {
        offline: true,
        ..Settings::default()
    };
    let request = NormalizedUsageRequest {
        since: Some("2026-06-01".to_string()),
        until: Some("2026-06-24".to_string()),
        timezone: "America/Los_Angeles".to_string(),
        force_refresh: false,
    };

    assert_eq!(
        build_daily_args(&settings, &request),
        vec![
            "daily",
            "--json",
            "--timezone",
            "America/Los_Angeles",
            "--offline",
            "--since",
            "2026-06-01",
            "--until",
            "2026-06-24"
        ]
    );
}

#[test]
fn omits_offline_when_disabled() {
    let settings = Settings {
        offline: false,
        ..Settings::default()
    };
    let request = NormalizedUsageRequest {
        since: None,
        until: None,
        timezone: "UTC".to_string(),
        force_refresh: false,
    };

    assert!(!build_daily_args(&settings, &request).contains(&"--offline".to_string()));
}

#[test]
fn open_range_has_no_bounds() {
    let request = NormalizedUsageRequest {
        since: None,
        until: Some("2026-06-24".to_string()),
        timezone: "UTC".to_string(),
        force_refresh: true,
    };
    assert_eq!(
        build_daily_args(&Settings::default(), &request),
        vec!["daily", "--json", "--timezone", "UTC", "--offline", "--until", "2026-06-24"]
    );
}

#[test]
fn command_line_puts_the_executable_first() {
    let args = vec!["daily".to_string(), "--json".to_string()];
    assert_eq!(
        command_line("/bin/ccusage".to_string(), args),
        vec!["/bin/ccusage", "daily", "--json"]
    );
}

#[test]
fn claude_dirs_become_the_environment() {
    let mut settings = Settings::default();
    assert!(command_environment(&settings).is_empty());
    settings.claude_config_dirs = Some("/a,/b".to_string());
    assert_eq!(
        command_environment(&settings),
        vec![("CLAUDE_CONFIG_DIR".to_string(), "/a,/b".to_string())]
    );
}

#[test]
fn truncate_cuts_long_text() {
    assert_eq!(truncate("hello", 5), "hello");
    assert_eq!(truncate("hello", 3), "hel...");
    assert_eq!(truncate("", 0), "");
    assert_eq!(truncate("héllo wörld", 4), "héll...");
}

#[test]
fn version_is_trimmed() {
    assert_eq!(version_from_output("  17.1.0\n"), "17.1.0");
}

#[test]
fn failed_run_is_an_error_with_cut_stderr() {
    let long = "e".repeat(STDERR_LIMIT + 10);
    match captured_output("out".to_string(), long, false, Some(2)) {
        Err(AppError::NonZeroExit { exit_code, stderr }) => {
            assert_eq!(exit_code, Some(2));
            assert_eq!(stderr.chars().count(), STDERR_LIMIT + 3);
            assert!(stderr.ends_with("..."));
        }
        _ => panic!("expected a failed run"),
    }
}

#[test]
fn successful_run_keeps_non_blank_stderr() {
    let ok = captured_output("{}".to_string(), " \n".to_string(), true, Some(0)).unwrap();
    assert_eq!(ok.stdout, "{}");
    assert_eq!(ok.stderr, None);
    let warned = captured_output("{}".to_string(), "careful".to_string(), true, None).unwrap();
    assert_eq!(warned.stderr.as_deref(), Some("careful"));
}

#[test]
fn executable_names_per_platform() {
    assert_eq!(executable_names(false), vec!["ccusage"]);
    assert_eq!(
        executable_names(true),
        vec!["ccusage.exe", "ccusage.cmd", "ccusage.bat", "ccusage"]
    );
}

#[test]
fn search_paths_go_directory_by_directory() {
    let dirs = vec!["/usr/bin".to_string(), "/opt/bin".to_string()];
    let names = vec!["a".to_string(), "b".to_string()];
    assert_eq!(
        search_paths(&dirs, &names),
        vec!["/usr/bin/a", "/usr/bin/b", "/opt/bin/a", "/opt/bin/b"]
    );
}

#[test]
fn install_dirs_prefer_user_profile() {
    let dirs = install_dirs(
        &Some("/profile".to_string()),
        &Some("/home/me".to_string()),
        &Some("/appdata".to_string()),
    );
    assert_eq!(dirs, vec!["/profile/.bun/bin", "/appdata/npm"]);
    let dirs = install_dirs(&None, &Some("/home/me".to_string()), &None);
    assert_eq!(dirs, vec!["/home/me/.bun/bin"]);
    assert!(install_dirs(&None, &None, &None).is_empty());
}

#[test]
fn candidates_start_with_the_configured_path() {
    let settings = Settings {
        ccusage_path: Some("/custom/ccusage".to_string()),
        ..Settings::default()
    };
    let candidates = candidate_paths(
        &settings,
        &vec!["/usr/bin".to_string(), "/opt/bin/".to_string()],
        &None,
        &Some("/home/me".to_string()),
        &Some("/appdata".to_string()),
        false,
    );
    assert_eq!(
        candidates,
        vec![
            "/custom/ccusage",
            "/usr/bin/ccusage",
            "/opt/bin/ccusage",
            "/home/me/.bun/bin/ccusage",
            "/appdata/npm/ccusage"
        ]
    );
    let none = candidate_paths(&Settings::default(), &Vec::new(), &None, &None, &None, true);
    assert!(none.is_empty());
}

#[test]
fn first_existing_candidate_wins() {
    let settings = Settings {
        ccusage_path: Some("/custom/ccusage".to_string()),
        ..Settings::default()
    };
    let dirs = vec!["/a".to_string(), "/b".to_string()];
    let home = Some("/h".to_string());
    let resolve = |exists: Vec<bool>| {
        resolve_ccusage_path(&settings, &dirs, &None, &home, &None, false, &exists)
    };
    assert_eq!(resolve(vec![true]).as_deref(), Some("/custom/ccusage"));
    assert_eq!(resolve(vec![false, false, true]).as_deref(), Some("/b/ccusage"));
    assert_eq!(resolve(vec![false, false, false, true]).as_deref(), Some("/h/.bun/bin/ccusage"));
    assert_eq!(resolve(vec![false, false, false, false]), None);
    assert_eq!(resolve(vec![false]), None);
}

#[test]
fn paths_join_with_one_separator() {
    assert_eq!(ccusage_ui::cache::cache_path("/cache/"), "/cache/usage_cache.json");
    assert_eq!(ccusage_ui::cache::cache_path(""), "usage_cache.json");
    assert_eq!(ccusage_ui::settings::settings_path("/c"), "/c/settings.json");
}
