//! The decisions behind the user interface's commands: which report to answer with, and
//! what status and diagnostics to show. Running `ccusage`, files and locks stay outside.
use vstd::prelude::*;
use crate::cache::{CachedEntry, UsageCache, fresh_at, same_entry};
use crate::dates::MAX_TIMESTAMP;
use crate::errors::{ApiError, AppError, reports};
use crate::models::{AppStatus, Diagnostics, UsageResponse, same_report};
use crate::runner::{CcusageRun, truncate, truncated};
use crate::text::text_eq;

verus! {

/// How many characters of `ccusage`'s output a diagnostic run shows.
pub const EXCERPT_LIMIT: usize = 800;

/// `r` is `response` marked as coming from the cache, with the given staleness and warning.
pub open spec fn marked(r: UsageResponse, response: UsageResponse, stale: bool, warning: Option<ApiError>) -> bool {
    &&& r.totals == response.totals
    &&& r.models@ == response.models@
    &&& r.daily@ == response.daily@
    &&& r.reasoning_reported == response.reasoning_reported
    &&& r.generated_at == response.generated_at
    &&& r.last_refreshed == response.last_refreshed
    &&& r.ccusage_version == response.ccusage_version
    &&& r.command@ == response.command@
    &&& r.from_cache
    &&& r.stale == stale
    &&& r.warning == warning
}

/// The report cached in memory under `key`, when it is fresh at time `now` (see
/// `fresh_at`), marked as cached and not stale.
pub fn fresh_from_memory(cache: &UsageCache, key: &str, ttl_seconds: u64, now: i64) -> (res: Option<UsageResponse>)
    ensures
        (res is Some) == (cache.view().contains_key(key@) && fresh_at(
            cache.view()[key@].cached_at_epoch as int,
            ttl_seconds,
            now as int,
        )),
        res matches Some(r) ==> marked(r, cache.view()[key@].response, false, None),
{
    match cache.get(key) {
        Some(entry) => {
            if entry.is_fresh_at(ttl_seconds, now) {
                Some(entry.response.clone().with_cache_flags(true, false, None))
            } else {
                None
            }
        },
        None => None,
    }
}

/// Whether a cache entry read from disk answers the request with `key` at time `now`: it
/// was made for that key and is fresh then.
pub fn accepts_disk_entry(entry: &CachedEntry, key: &str, ttl_seconds: u64, now: i64) -> (res: bool)
    ensures
        res == (entry.key@ == key@ && fresh_at(entry.cached_at_epoch as int, ttl_seconds, now as int)),
{
    text_eq(entry.key.as_str(), key) && entry.is_fresh_at(ttl_seconds, now)
}

/// `r` is `parsed` completed by a run: the run's version and command, refreshed and
/// generated at `refreshed_at`, neither cached nor stale.
pub open spec fn completed(r: UsageResponse, parsed: UsageResponse, run: CcusageRun, refreshed_at: String) -> bool {
    &&& r.totals == parsed.totals
    &&& r.models == parsed.models
    &&& r.daily == parsed.daily
    &&& r.reasoning_reported == parsed.reasoning_reported
    &&& r.warning == parsed.warning
    &&& r.ccusage_version == run.ccusage_version
    &&& r.command == run.command
    &&& r.last_refreshed == refreshed_at
    &&& r.generated_at@ == refreshed_at@
    &&& !r.from_cache
    &&& !r.stale
}

/// The report of a fresh run (see `completed`).
pub fn complete_report(parsed: UsageResponse, run: CcusageRun, refreshed_at: String) -> (res: UsageResponse)
    ensures
        completed(res, parsed, run, refreshed_at),
{
    let mut response = parsed;
    response.ccusage_version = run.ccusage_version;
    response.command = run.command;
    response.generated_at = refreshed_at.clone();
    response.last_refreshed = refreshed_at;
    response.from_cache = false;
    response.stale = false;
    response
}

/// What a failed run answers: the report cached in memory, else the one on disk, marked as
/// cached and stale with the error as a warning; with no cached report, the error.
pub fn fallback_response(memory: Option<CachedEntry>, disk: Option<CachedEntry>, error: AppError) -> (res: Result<UsageResponse, ApiError>)
    ensures
        match (memory, disk) {
            (Some(m), _) => res matches Ok(r) && r.warning matches Some(w) && reports(error, w)
                && marked(r, m.response, true, r.warning),
            (None, Some(d)) => res matches Ok(r) && r.warning matches Some(w) && reports(error, w)
                && marked(r, d.response, true, r.warning),
            (None, None) => res matches Err(e) && reports(error, e),
        },
{
    let entry = match memory {
        Some(m) => Some(m),
        None => disk,
    };
    match entry {
        Some(e) => {
            let warning = ApiError::from(error);
            Ok(e.response.with_cache_flags(true, true, Some(warning)))
        },
        None => Err(ApiError::from(error)),
    }
}

/// The status shown to the user: whether and where `ccusage` was found, its version, and
/// where the settings and cache live.
pub fn app_status(resolved: Option<String>, version: Option<String>, settings_path: String, cache_path: String) -> (res: AppStatus)
    ensures
        res.ccusage_found == resolved is Some,
        res.ccusage_path == resolved,
        res.ccusage_version == version,
        res.settings_path == settings_path,
        res.cache_path == cache_path,
{
    AppStatus {
        ccusage_found: resolved.is_some(),
        ccusage_path: resolved,
        ccusage_version: version,
        settings_path,
        cache_path,
    }
}

/// What a diagnostic run shows: the status, the command's arguments, and either excerpts
/// of the run's output (cut to `EXCERPT_LIMIT` characters) or the error.
pub fn diagnostics(status: AppStatus, command: Vec<String>, run: Result<CcusageRun, AppError>) -> (res: Diagnostics)
    ensures
        res.status == status,
        res.command == command,
        match run {
            Ok(r) => res.error is None && (res.stdout_excerpt matches Some(o) && o@ == truncated(r.stdout@, EXCERPT_LIMIT as nat))
                && match r.stderr {
                Some(e) => res.stderr_excerpt matches Some(x) && x@ == truncated(e@, EXCERPT_LIMIT as nat),
                None => res.stderr_excerpt is None,
            },
            Err(e) => res.stdout_excerpt is None && res.stderr_excerpt is None && (res.error matches Some(a) && reports(e, a)),
        },
{
    let (stdout_excerpt, stderr_excerpt, error) = match run {
        Ok(r) => {
            let out = truncate(r.stdout.as_str(), EXCERPT_LIMIT);
            let err = match &r.stderr {
                Some(e) => Some(truncate(e.as_str(), EXCERPT_LIMIT)),
                None => None,
            };
            (Some(out), err, None)
        },
        Err(e) => (None, None, Some(ApiError::from(e))),
    };
    Diagnostics { status, command, stdout_excerpt, stderr_excerpt, error }
}

// ---------------------------------------------------------------------------------------
// A usage query, step by step: memory, then disk, then a run of `ccusage`
// ---------------------------------------------------------------------------------------

/// What a query does first.
pub enum QueryStep {
    /// Answer with this report, from memory.
    Answer(UsageResponse),
    /// Read the cache file, then take `answer_from_disk`.
    ReadDisk,
    /// Run `ccusage`.
    RunReport,
}

/// The first step of a query at time `now`: a forced refresh runs `ccusage` at once;
/// otherwise the report cached in memory under `key` answers when it is fresh then (see
/// `fresh_from_memory`), and without one the cache file is read next.
pub fn first_step(cache: &UsageCache, key: &str, force_refresh: bool, ttl_seconds: u64, now: i64) -> (res: QueryStep)
    ensures
        force_refresh <==> res is RunReport,
        !force_refresh ==> ((res is Answer) == (cache.view().contains_key(key@) && fresh_at(
            cache.view()[key@].cached_at_epoch as int,
            ttl_seconds,
            now as int,
        ))),
        res matches QueryStep::Answer(r) ==> marked(r, cache.view()[key@].response, false, None),
{
    if force_refresh {
        QueryStep::RunReport
    } else {
        match fresh_from_memory(cache, key, ttl_seconds, now) {
            Some(r) => QueryStep::Answer(r),
            None => QueryStep::ReadDisk,
        }
    }
}

/// The step after `ReadDisk` at time `now`, with what the cache file held (`None` when
/// there is no entry or it cannot be read): an entry made for `key` that is fresh then (see
/// `accepts_disk_entry`) answers, marked as cached and not stale, and is kept in memory
/// under `key`; otherwise (`None`) memory stays as it was and `ccusage` runs.
pub fn answer_from_disk(
    cache: &mut UsageCache,
    key: &str,
    disk: Option<CachedEntry>,
    ttl_seconds: u64,
    now: i64,
) -> (res: Option<UsageResponse>)
    ensures
        (res is Some) == (disk matches Some(e) && e.key@ == key@ && fresh_at(
            e.cached_at_epoch as int,
            ttl_seconds,
            now as int,
        )),
        match res {
            Some(r) => disk matches Some(e) && marked(r, e.response, false, None)
                && final(cache).view() == old(cache).view().insert(key@, e),
            None => final(cache).view() == old(cache).view(),
        },
{
    match disk {
        Some(entry) => {
            if accepts_disk_entry(&entry, key, ttl_seconds, now) {
                let response = entry.response.clone().with_cache_flags(true, false, None);
                let stored_key = entry.key.clone();
                cache.insert(stored_key, entry);
                Some(response)
            } else {
                None
            }
        },
        None => None,
    }
}

/// The last step after a successful run: the parsed report completed by the run (see
/// `completed`) answers, and is cached in memory under `key`. Gives the answer and the
/// cache entry to save on disk.
pub fn record_run(
    cache: &mut UsageCache,
    key: String,
    parsed: UsageResponse,
    run: CcusageRun,
    refreshed_at: String,
) -> (res: (UsageResponse, CachedEntry))
    ensures
        completed(res.0, parsed, run, refreshed_at),
        res.1.key == key,
        same_report(res.1.response, res.0),
        0 <= res.1.cached_at_epoch <= MAX_TIMESTAMP,
        final(cache).view().contains_key(key@),
        same_entry(final(cache).view()[key@], res.1),
        final(cache).view() == old(cache).view().insert(key@, final(cache).view()[key@]),
{
    let response = complete_report(parsed, run, refreshed_at);
    let entry = CachedEntry::new(key.clone(), response.clone());
    let saved = entry.clone();
    cache.insert(key, entry);
    (response, saved)
}

/// After a failed run, whether the disk cache must be read: only when memory holds no
/// report under `key`.
pub fn fallback_needs_disk(cache: &UsageCache, key: &str) -> (res: bool)
    ensures
        res == !cache.view().contains_key(key@),
{
    cache.get(key).is_none()
}

/// The last step after a failed run: the report cached in memory under `key`, else the one
/// read from disk (whatever its key), marked as cached and stale with the error as a
/// warning; with neither, the error.
pub fn answer_after_failure(cache: &UsageCache, key: &str, disk: Option<CachedEntry>, error: AppError) -> (res: Result<UsageResponse, ApiError>)
    ensures
        cache.view().contains_key(key@) ==> (res matches Ok(r) && r.warning matches Some(w) && reports(error, w)
            && marked(r, cache.view()[key@].response, true, r.warning)),
        !cache.view().contains_key(key@) ==> match disk {
            Some(d) => res matches Ok(r) && r.warning matches Some(w) && reports(error, w)
                && marked(r, d.response, true, r.warning),
            None => res matches Err(e) && reports(error, e),
        },
{
    let memory = match cache.get(key) {
        Some(entry) => Some(entry.clone()),
        None => None,
    };
    fallback_response(memory, disk, error)
}

} // verus!
