use ccusage_ui::cache::{cache_key, cache_path, CachedEntry, UsageCache};
use ccusage_ui::commands::{
    accepts_disk_entry, answer_after_failure, answer_from_disk, app_status, complete_report,
    diagnostics, fallback_needs_disk, fallback_response, first_step, fresh_from_memory,
    record_run, QueryStep,
};
use ccusage_ui::dates::now_timestamp;
use ccusage_ui::errors::AppError;
use ccusage_ui::models::{NormalizedUsageRequest, UsageResponse};
use ccusage_ui::runner::CcusageRun;
use ccusage_ui::settings::Settings;
use ccusage_ui::state::AppState;
use ccusage_ui::totals::TokenTotals;

fn report(total: u64) -> UsageResponse {
    let mut totals = TokenTotals::zero();
    totals.total_tokens = total;
    UsageResponse {
        totals,
        models: Vec::new(),
        daily: Vec::new(),
        reasoning_reported: false,
        generated_at: String::new(),
        last_refreshed: String::new(),
        stale: false,
        from_cache: false,
        ccusage_version: None,
        command: Vec::new(),
        warning: None,
    }
}

fn entry(key: &str, total: u64, cached_at_epoch: i64) -> CachedEntry {
    CachedEntry {
        key: key.to_string(),
        cached_at_epoch,
        response: report(total),
    }
}

#[test]
fn key_names_every_part_of_the_request() {
    let request = NormalizedUsageRequest {
        since: Some("2026-06-01".to_string()),
        until: None,
        timezone: "UTC".to_string(),
        force_refresh: false,
    };
    let settings = Settings::default();
    assert_eq!(
        cache_key(&request, &settings),
        "daily|since=2026-06-01|until=all|tz=UTC|offline=true|path=auto"
    );
    let settings = Settings {
        offline: false,
        ccusage_path: Some("/bin/ccusage".to_string()),
        ..Settings::default()
    };
    assert_eq!(
        cache_key(&request, &settings),
        "daily|since=2026-06-01|until=all|tz=UTC|offline=false|path=/bin/ccusage"
    );
}

#[test]
fn cache_file_is_in_the_cache_dir() {
    assert_eq!(cache_path("/cache"), "/cache/usage_cache.json");
}

#[test]
fn new_entry_is_stamped_now() {
    let before = now_timestamp();
    let e = CachedEntry::new("k".to_string(), report(5));
    let after = now_timestamp();
    assert!(before <= e.cached_at_epoch && e.cached_at_epoch <= after);
    assert!(before > 1_600_000_000);
    assert_eq!(e.key, "k");
    assert!(e.is_fresh(60));
    assert!(!e.is_fresh(0));
}

#[test]
fn freshness_at_a_given_time() {
    let e = entry("k", 1, 1_000);
    assert!(e.is_fresh_at(300, 1_000));
    assert!(e.is_fresh_at(300, 1_300));
    assert!(!e.is_fresh_at(300, 1_301));
    assert!(!e.is_fresh_at(300, 999));
    assert!(!e.is_fresh_at(0, 1_000));
    assert!(!entry("k", 1, i64::MIN).is_fresh_at(u64::MAX, i64::MAX));
    assert!(!e.is_fresh_at(u64::MAX, 1_001));
}

#[test]
fn get_after_insert() {
    let mut cache = UsageCache::new();
    assert!(cache.get("a").is_none());
    cache.insert("a".to_string(), entry("a", 1, 10));
    cache.insert("b".to_string(), entry("b", 2, 10));
    cache.insert("a".to_string(), entry("a", 3, 20));
    assert_eq!(cache.get("a").unwrap().response.totals.total_tokens, 3);
    assert_eq!(cache.get("a").unwrap().cached_at_epoch, 20);
    assert_eq!(cache.get("b").unwrap().response.totals.total_tokens, 2);
    cache.clear();
    assert!(cache.get("a").is_none());
    assert!(cache.get("b").is_none());
}

#[test]
fn state_starts_with_an_empty_cache() {
    let state = AppState::new("/c".to_string(), "/k".to_string(), Settings::default());
    assert_eq!(state.config_dir, "/c");
    assert_eq!(state.cache_dir, "/k");
    assert!(state.cache.get("anything").is_none());
}

#[test]
fn memory_answers_only_when_fresh() {
    let mut cache = UsageCache::new();
    cache.insert("k".to_string(), CachedEntry::new("k".to_string(), report(7)));
    cache.insert("old".to_string(), entry("old", 1, 0));
    let hit = fresh_from_memory(&cache, "k", 300, now_timestamp()).unwrap();
    assert!(hit.from_cache);
    assert!(!hit.stale);
    assert_eq!(hit.totals.total_tokens, 7);
    assert!(fresh_from_memory(&cache, "k", 0, now_timestamp()).is_none());
    assert!(fresh_from_memory(&cache, "old", 300, now_timestamp()).is_none());
    assert!(fresh_from_memory(&cache, "missing", 300, now_timestamp()).is_none());
}

#[test]
fn disk_entry_needs_the_same_key() {
    let e = CachedEntry::new("k".to_string(), report(1));
    assert!(accepts_disk_entry(&e, "k", 300, now_timestamp()));
    assert!(!accepts_disk_entry(&e, "other", 300, now_timestamp()));
    assert!(!accepts_disk_entry(&e, "k", 0, now_timestamp()));
}

#[test]
fn fresh_run_is_completed() {
    let run = CcusageRun {
        stdout: "{}".to_string(),
        stderr: None,
        command: vec!["ccusage".to_string(), "daily".to_string()],
        ccusage_version: Some("17.0.0".to_string()),
    };
    let mut parsed = report(9);
    parsed.from_cache = true;
    parsed.stale = true;
    let done = complete_report(parsed, run, "2026-06-24T00:00:00+00:00".to_string());
    assert_eq!(done.totals.total_tokens, 9);
    assert_eq!(done.command, vec!["ccusage", "daily"]);
    assert_eq!(done.ccusage_version.as_deref(), Some("17.0.0"));
    assert_eq!(done.generated_at, "2026-06-24T00:00:00+00:00");
    assert_eq!(done.last_refreshed, done.generated_at);
    assert!(!done.from_cache);
    assert!(!done.stale);
}

#[test]
fn failed_run_falls_back_to_cache() {
    let from_memory = fallback_response(
        Some(entry("k", 1, 0)),
        Some(entry("k", 2, 0)),
        AppError::Timeout,
    )
    .unwrap();
    assert_eq!(from_memory.totals.total_tokens, 1);
    assert!(from_memory.from_cache);
    assert!(from_memory.stale);
    assert_eq!(from_memory.warning.as_ref().unwrap().code, "timeout");

    let from_disk = fallback_response(None, Some(entry("k", 2, 0)), AppError::Timeout).unwrap();
    assert_eq!(from_disk.totals.total_tokens, 2);

    let error = fallback_response(
        None,
        None,
        AppError::NotInstalled {
            details: "nowhere".to_string(),
        },
    )
    .unwrap_err();
    assert_eq!(error.code, "notInstalled");
    assert_eq!(error.details.as_deref(), Some("nowhere"));
}

#[test]
fn status_and_diagnostics() {
    let status = app_status(
        Some("/bin/ccusage".to_string()),
        Some("1.0".to_string()),
        "/c/settings.json".to_string(),
        "/k/usage_cache.json".to_string(),
    );
    assert!(status.ccusage_found);
    assert!(!app_status(None, None, String::new(), String::new()).ccusage_found);

    let run = CcusageRun {
        stdout: "x".repeat(900),
        stderr: Some("warn".to_string()),
        command: Vec::new(),
        ccusage_version: None,
    };
    let shown = diagnostics(status.clone(), vec!["daily".to_string()], Ok(run));
    assert_eq!(shown.stdout_excerpt.as_ref().unwrap().chars().count(), 803);
    assert_eq!(shown.stderr_excerpt.as_deref(), Some("warn"));
    assert!(shown.error.is_none());
    assert_eq!(shown.command, vec!["daily"]);

    let failed = diagnostics(status, Vec::new(), Err(AppError::Timeout));
    assert!(failed.stdout_excerpt.is_none());
    assert_eq!(failed.error.unwrap().code, "timeout");
}

fn run_of(version: &str) -> CcusageRun {
    CcusageRun {
        stdout: "{}".to_string(),
        stderr: None,
        command: vec!["ccusage".to_string()],
        ccusage_version: Some(version.to_string()),
    }
}

#[test]
fn a_query_reads_memory_then_disk_then_runs() {
    let mut cache = UsageCache::new();
    assert!(matches!(first_step(&cache, "k", false, 300, now_timestamp()), QueryStep::ReadDisk));
    assert!(matches!(first_step(&cache, "k", true, 300, now_timestamp()), QueryStep::RunReport));

    let disk = CachedEntry::new("k".to_string(), report(4));
    let from_disk = answer_from_disk(&mut cache, "k", Some(disk), 300, now_timestamp()).unwrap();
    assert!(from_disk.from_cache);
    assert!(!from_disk.stale);
    assert_eq!(from_disk.totals.total_tokens, 4);

    match first_step(&cache, "k", false, 300, now_timestamp()) {
        QueryStep::Answer(again) => assert_eq!(again.totals.total_tokens, 4),
        _ => panic!("expected an answer from memory"),
    }
    assert!(matches!(first_step(&cache, "k", true, 300, now_timestamp()), QueryStep::RunReport));
    assert!(matches!(first_step(&cache, "k", false, 0, now_timestamp()), QueryStep::ReadDisk));

    let other = CachedEntry::new("other".to_string(), report(5));
    assert!(answer_from_disk(&mut cache, "k2", Some(other), 300, now_timestamp()).is_none());
    assert!(cache.get("k2").is_none());
    assert!(answer_from_disk(&mut cache, "k2", None, 300, now_timestamp()).is_none());
}

#[test]
fn a_run_is_recorded_in_memory() {
    let mut cache = UsageCache::new();
    let (response, entry) = record_run(
        &mut cache,
        "k".to_string(),
        report(8),
        run_of("2.0"),
        "now".to_string(),
    );
    assert_eq!(response.ccusage_version.as_deref(), Some("2.0"));
    assert_eq!(entry.key, "k");
    assert_eq!(entry.response.totals.total_tokens, 8);
    assert_eq!(cache.get("k").unwrap().cached_at_epoch, entry.cached_at_epoch);
    match first_step(&cache, "k", false, 300, now_timestamp()) {
        QueryStep::Answer(hit) => {
            assert_eq!(hit.last_refreshed, "now");
            assert!(hit.from_cache);
        }
        _ => panic!("expected an answer from memory"),
    }
}

#[test]
fn a_failed_query_prefers_memory() {
    let mut cache = UsageCache::new();
    assert!(fallback_needs_disk(&cache, "k"));
    let answer = answer_after_failure(&cache, "k", Some(entry("x", 2, 0)), AppError::Timeout)
        .unwrap();
    assert_eq!(answer.totals.total_tokens, 2);
    assert!(answer.stale);

    cache.insert("k".to_string(), entry("k", 1, 0));
    assert!(!fallback_needs_disk(&cache, "k"));
    let answer = answer_after_failure(&cache, "k", None, AppError::Timeout).unwrap();
    assert_eq!(answer.totals.total_tokens, 1);
    assert_eq!(answer.warning.unwrap().code, "timeout");

    let empty = UsageCache::new();
    let error = answer_after_failure(
        &empty,
        "k",
        None,
        AppError::Io {
            details: "d".to_string(),
        },
    )
    .unwrap_err();
    assert_eq!(error.code, "io");
}

#[test]
fn freshness_decides_at_the_given_time() {
    let mut cache = UsageCache::new();
    cache.insert("k".to_string(), entry("k", 3, 1_000));
    assert!(fresh_from_memory(&cache, "k", 300, 1_300).is_some());
    assert!(fresh_from_memory(&cache, "k", 300, 1_301).is_none());
    assert!(matches!(first_step(&cache, "k", false, 300, 1_200), QueryStep::Answer(_)));
    assert!(matches!(first_step(&cache, "k", false, 300, 604_800), QueryStep::ReadDisk));
    assert!(matches!(first_step(&cache, "k", true, 300, 1_200), QueryStep::RunReport));

    let old = entry("d", 4, 1_000);
    assert!(accepts_disk_entry(&old, "d", 300, 1_000));
    assert!(!accepts_disk_entry(&old, "d", 300, 999));
    let mut other = UsageCache::new();
    assert!(answer_from_disk(&mut other, "d", Some(entry("d", 4, 1_000)), 300, 604_800).is_none());
    assert!(other.get("d").is_none());
    let served = answer_from_disk(&mut other, "d", Some(entry("d", 4, 1_000)), 300, 1_100).unwrap();
    assert_eq!(served.totals.total_tokens, 4);
    assert!(other.get("d").is_some());
}
