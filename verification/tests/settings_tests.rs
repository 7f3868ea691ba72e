use ccusage_ui::settings::{
    apply_patch, clean_list, settings_path, trimmed_nonblank, Settings, SettingsDto,
    SettingsPatch, MAX_CACHE_TTL_SECONDS,
};

fn same(a: &Settings, b: &Settings) -> bool {
    a.ccusage_path == b.ccusage_path
        && a.claude_config_dirs == b.claude_config_dirs
        && a.timezone == b.timezone
        && a.cache_ttl_seconds == b.cache_ttl_seconds
        && a.offline == b.offline
        && a.auto_refresh_seconds == b.auto_refresh_seconds
        && a.include_raw_json == b.include_raw_json
}

#[test]
fn defaults() {
    let s = Settings::default();
    assert_eq!(s.ccusage_path, None);
    assert_eq!(s.claude_config_dirs, None);
    assert_eq!(s.timezone, None);
    assert_eq!(s.cache_ttl_seconds, 300);
    assert!(s.offline);
    assert_eq!(s.auto_refresh_seconds, None);
    assert!(!s.include_raw_json);
}

#[test]
fn empty_patch_changes_nothing() {
    let mut s = Settings {
        timezone: Some("UTC".to_string()),
        ..Settings::default()
    };
    let before = s.clone();
    assert!(apply_patch(&mut s, SettingsPatch::default()).is_ok());
    assert!(same(&s, &before));
}

#[test]
fn patch_trims_and_clears() {
    let mut s = Settings::default();
    let patch = SettingsPatch {
        ccusage_path: Some(Some("  /opt/ccusage  ".to_string())),
        claude_config_dirs: Some(Some(" /a , ,/b,, ".to_string())),
        timezone: Some(Some("   ".to_string())),
        offline: Some(false),
        include_raw_json: Some(true),
        ..SettingsPatch::default()
    };
    apply_patch(&mut s, patch).unwrap();
    assert_eq!(s.ccusage_path.as_deref(), Some("/opt/ccusage"));
    assert_eq!(s.claude_config_dirs.as_deref(), Some("/a,/b"));
    assert_eq!(s.timezone, None);
    assert!(!s.offline);
    assert!(s.include_raw_json);

    let clear = SettingsPatch {
        ccusage_path: Some(None),
        claude_config_dirs: Some(Some(" , ".to_string())),
        ..SettingsPatch::default()
    };
    apply_patch(&mut s, clear).unwrap();
    assert_eq!(s.ccusage_path, None);
    assert_eq!(s.claude_config_dirs, None);
}

#[test]
fn patch_keeps_limits() {
    let mut s = Settings::default();
    let patch = SettingsPatch {
        cache_ttl_seconds: Some(1_000_000),
        auto_refresh_seconds: Some(Some(10)),
        ..SettingsPatch::default()
    };
    apply_patch(&mut s, patch).unwrap();
    assert_eq!(s.cache_ttl_seconds, MAX_CACHE_TTL_SECONDS);
    assert_eq!(s.auto_refresh_seconds, None);

    let patch = SettingsPatch {
        cache_ttl_seconds: Some(60),
        auto_refresh_seconds: Some(Some(30)),
        ..SettingsPatch::default()
    };
    apply_patch(&mut s, patch).unwrap();
    assert_eq!(s.cache_ttl_seconds, 60);
    assert_eq!(s.auto_refresh_seconds, Some(30));
}

#[test]
fn patch_twice_is_patch_once() {
    let patch = SettingsPatch {
        claude_config_dirs: Some(Some("x, y".to_string())),
        cache_ttl_seconds: Some(90_000),
        auto_refresh_seconds: Some(Some(45)),
        timezone: Some(Some(" Europe/Paris ".to_string())),
        ..SettingsPatch::default()
    };
    let mut once = Settings::default();
    apply_patch(&mut once, patch.clone()).unwrap();
    let mut twice = once.clone();
    apply_patch(&mut twice, patch).unwrap();
    assert!(same(&once, &twice));
    assert_eq!(twice.timezone.as_deref(), Some("Europe/Paris"));
}

#[test]
fn cleaning_values() {
    assert_eq!(clean_list("a,b").as_deref(), Some("a,b"));
    assert_eq!(clean_list(" a ,\tb\n").as_deref(), Some("a,b"));
    assert_eq!(clean_list(",,"), None);
    assert_eq!(clean_list(""), None);
    assert_eq!(trimmed_nonblank("  x y ").as_deref(), Some("x y"));
    assert_eq!(trimmed_nonblank(" \t"), None);
}

#[test]
fn settings_file_is_in_the_config_dir() {
    assert_eq!(settings_path("/config"), "/config/settings.json");
}

#[test]
fn dto_copies_every_field() {
    let s = Settings {
        ccusage_path: Some("/x".to_string()),
        auto_refresh_seconds: Some(60),
        ..Settings::default()
    };
    let dto = SettingsDto::from(s);
    assert_eq!(dto.ccusage_path.as_deref(), Some("/x"));
    assert_eq!(dto.auto_refresh_seconds, Some(60));
    assert_eq!(dto.cache_ttl_seconds, 300);
    assert!(dto.offline);
}
