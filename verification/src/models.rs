//! The usage report, the request for one, and the status shown to the user.
use vstd::prelude::*;
use crate::dates::{CalendarDate, MIN_DAY, parsed_date_day, formatted_date};
use crate::errors::{ApiError, AppError, optional_text};
use crate::settings::Settings;
use crate::text::{owned_text, push_text, trim_text, trimmed};
use crate::totals::TokenTotals;

verus! {

/// Usage of one model by one agent.
#[derive(Debug, PartialEq, Default)]
pub struct ModelUsage {
    pub model_name: String,
    pub agent: String,
    pub totals: TokenTotals,
}

/// Usage in one period (a day, a week or a month).
#[derive(Debug, PartialEq, Default)]
pub struct DailyUsage {
    pub period: String,
    pub totals: TokenTotals,
}

/// A usage report, with where it came from.
#[derive(Debug, PartialEq, Default)]
pub struct UsageResponse {
    pub totals: TokenTotals,
    pub models: Vec<ModelUsage>,
    pub daily: Vec<DailyUsage>,
    pub reasoning_reported: bool,
    pub generated_at: String,
    pub last_refreshed: String,
    pub stale: bool,
    pub from_cache: bool,
    pub ccusage_version: Option<String>,
    pub command: Vec<String>,
    pub warning: Option<ApiError>,
}

impl Clone for ModelUsage {
    fn clone(&self) -> (res: ModelUsage)
        ensures
            res == *self,
    {
        ModelUsage { model_name: self.model_name.clone(), agent: self.agent.clone(), totals: self.totals }
    }
}

impl Clone for DailyUsage {
    fn clone(&self) -> (res: DailyUsage)
        ensures
            res == *self,
    {
        DailyUsage { period: self.period.clone(), totals: self.totals }
    }
}

/// Whether two reports hold the same values (their lists element by element).
pub open spec fn same_report(a: UsageResponse, b: UsageResponse) -> bool {
    &&& a.totals == b.totals
    &&& a.models@ == b.models@
    &&& a.daily@ == b.daily@
    &&& a.reasoning_reported == b.reasoning_reported
    &&& a.generated_at == b.generated_at
    &&& a.last_refreshed == b.last_refreshed
    &&& a.stale == b.stale
    &&& a.from_cache == b.from_cache
    &&& a.ccusage_version == b.ccusage_version
    &&& a.command@ == b.command@
    &&& a.warning == b.warning
}

impl Clone for UsageResponse {
    fn clone(&self) -> (res: UsageResponse)
        ensures
            same_report(res, *self),
    {
        let models = self.models.clone();
        assert(models@ =~= self.models@);
        let daily = self.daily.clone();
        assert(daily@ =~= self.daily@);
        let command = self.command.clone();
        assert(command@ =~= self.command@);
        UsageResponse {
            totals: self.totals,
            models,
            daily,
            reasoning_reported: self.reasoning_reported,
            generated_at: self.generated_at.clone(),
            last_refreshed: self.last_refreshed.clone(),
            stale: self.stale,
            from_cache: self.from_cache,
            ccusage_version: self.ccusage_version.clone(),
            command,
            warning: self.warning.clone(),
        }
    }
}

impl UsageResponse {
    /// The same report marked as coming from the cache or not, stale or not, with `warning`.
    pub fn with_cache_flags(self, from_cache: bool, stale: bool, warning: Option<ApiError>) -> (res:
        UsageResponse)
        ensures
            res.from_cache == from_cache,
            res.stale == stale,
            res.warning == warning,
            res.totals == self.totals,
            res.models == self.models,
            res.daily == self.daily,
            res.reasoning_reported == self.reasoning_reported,
            res.generated_at == self.generated_at,
            res.last_refreshed == self.last_refreshed,
            res.ccusage_version == self.ccusage_version,
            res.command == self.command,
    {
        let mut out = self;
        out.from_cache = from_cache;
        out.stale = stale;
        out.warning = warning;
        out
    }
}

/// Whether `ccusage` was found, and where the settings and cache live.
#[derive(Debug, Clone)]
pub struct AppStatus {
    pub ccusage_found: bool,
    pub ccusage_path: Option<String>,
    pub ccusage_version: Option<String>,
    pub settings_path: String,
    pub cache_path: String,
}

/// What a diagnostic run of `ccusage` showed.
#[derive(Debug, Clone)]
pub struct Diagnostics {
    pub status: AppStatus,
    pub command: Vec<String>,
    pub stdout_excerpt: Option<String>,
    pub stderr_excerpt: Option<String>,
    pub error: Option<ApiError>,
}


// ---------------------------------------------------------------------------------------
// Requests
// ---------------------------------------------------------------------------------------

/// Which dates a usage request covers.
#[derive(Debug, Clone, Copy, PartialEq, Eq)]
pub enum RangeKind {
    Today,
    Last7Days,
    Last30Days,
    All,
    Custom,
}

impl Default for RangeKind {
    /// The last 30 days.
    fn default() -> (res: RangeKind)
        ensures
            res == RangeKind::Last30Days,
    {
        RangeKind::Last30Days
    }
}

/// How many days before today a range starts: 6 for the last 7 days, 29 for the last 30
/// days, none for the others.
pub open spec fn days_back(range: RangeKind) -> int {
    match range {
        RangeKind::Last7Days => 6,
        RangeKind::Last30Days => 29,
        _ => 0,
    }
}

impl RangeKind {
    /// How many days before today the range starts (see `days_back`).
    pub fn days_back(&self) -> (res: i32)
        ensures
            res == days_back(*self),
    {
        match self {
            RangeKind::Last7Days => 6,
            RangeKind::Last30Days => 29,
            _ => 0,
        }
    }
}

/// A request for usage, as the user interface sends it.
#[derive(Debug, Clone)]
pub struct UsageRequest {
    pub range: RangeKind,
    /// First date of a custom range, `YYYY-MM-DD`.
    pub since: Option<String>,
    /// Last date of a custom range, `YYYY-MM-DD`.
    pub until: Option<String>,
    pub timezone: Option<String>,
    pub force_refresh: bool,
}

impl Default for UsageRequest {
    /// The last 30 days, in the configured time zone, from the cache when it is fresh.
    fn default() -> (res: UsageRequest)
        ensures
            res.range == RangeKind::Last30Days,
            res.since is None,
            res.until is None,
            res.timezone is None,
            !res.force_refresh,
    {
        UsageRequest {
            range: RangeKind::Last30Days,
            since: None,
            until: None,
            timezone: None,
            force_refresh: false,
        }
    }
}

/// A usage request with its dates worked out and written `YYYY-MM-DD`, and its time zone
/// chosen.
#[derive(Debug, Clone)]
pub struct NormalizedUsageRequest {
    pub since: Option<String>,
    pub until: Option<String>,
    pub timezone: String,
    pub force_refresh: bool,
}

/// A bound of a custom range: absent or blank means none; otherwise the trimmed text must
/// read as a `YYYY-MM-DD` date, else the error message names the bound.
pub open spec fn optional_date(value: Option<String>, label: Seq<char>) -> Result<Option<int>, Seq<char>> {
    match value {
        None => Ok(None),
        Some(v) => if trimmed(v@).len() == 0 {
            Ok(None)
        } else {
            match parsed_date_day(trimmed(v@), "%Y-%m-%d"@) {
                Some(d) => Ok(Some(d as int)),
                None => Err(label + " must use YYYY-MM-DD"@),
            }
        },
    }
}

/// The day numbers of the first and last dates that a request covers: today alone, the
/// last 7 or 30 days up to today, everything, or the custom bounds (`since` read first).
pub open spec fn request_bounds(req: UsageRequest, today: int) -> Result<(Option<int>, Option<int>), Seq<char>> {
    match req.range {
        RangeKind::Today => Ok((Some(today), Some(today))),
        RangeKind::Last7Days => Ok((Some(today - 6), Some(today))),
        RangeKind::Last30Days => Ok((Some(today - 29), Some(today))),
        RangeKind::All => Ok((None, None)),
        RangeKind::Custom => match optional_date(req.since, "since"@) {
            Err(m) => Err(m),
            Ok(s) => match optional_date(req.until, "until"@) {
                Err(m) => Err(m),
                Ok(u) => Ok((s, u)),
            },
        },
    }
}

/// The time zone of a request: its own unless blank, else the configured one, else UTC.
pub open spec fn chosen_timezone(requested: Option<String>, settings: Settings) -> Seq<char> {
    match requested {
        Some(t) => if trimmed(t@).len() > 0 {
            t@
        } else {
            match settings.timezone {
                Some(z) => z@,
                None => "UTC"@,
            }
        },
        None => match settings.timezone {
            Some(z) => z@,
            None => "UTC"@,
        },
    }
}

pub open spec fn formatted_bound(b: Option<int>) -> Option<Seq<char>> {
    match b {
        Some(d) => Some(formatted_date(d as i32, "%Y-%m-%d"@)),
        None => None,
    }
}

pub open spec fn is_invalid_request(res: Result<NormalizedUsageRequest, AppError>, message: Seq<char>) -> bool {
    res matches Err(AppError::InvalidRequest { details }) && details@ == message
}

/// What normalizing `req` on day `today` gives: an invalid-request error for an unreadable
/// custom bound or a range that ends before it starts; otherwise the bounds written as
/// dates, the chosen time zone and the refresh flag.
pub open spec fn normalized(
    req: UsageRequest,
    settings: Settings,
    today: int,
    res: Result<NormalizedUsageRequest, AppError>,
) -> bool {
    match request_bounds(req, today) {
        Err(m) => is_invalid_request(res, m),
        Ok((s, u)) => if s is Some && u is Some && s.unwrap() > u.unwrap() {
            is_invalid_request(res, "since must be on or before until"@)
        } else {
            res matches Ok(n) && optional_text(n.since) == formatted_bound(s) && optional_text(
                n.until,
            ) == formatted_bound(u) && n.timezone@ == chosen_timezone(req.timezone, settings)
                && n.force_refresh == req.force_refresh
        },
    }
}

pub open spec fn optional_day(d: Option<CalendarDate>) -> Option<int> {
    match d {
        Some(x) => Some(x.day_number()),
        None => None,
    }
}

/// Reads a bound of a custom range (see `optional_date`).
pub fn parse_optional_date(value: &Option<String>, label: &str) -> (res: Result<Option<CalendarDate>, AppError>)
    ensures
        match optional_date(*value, label@) {
            Ok(d) => res matches Ok(x) && optional_day(x) == d,
            Err(m) => res matches Err(AppError::InvalidRequest { details }) && details@ == m,
        },
{
    match value {
        None => Ok(None),
        Some(v) => {
            let t = trim_text(v.as_str());
            if t.is_empty() {
                Ok(None)
            } else {
                match CalendarDate::parse_ymd(t) {
                    Some(d) => Ok(Some(d)),
                    None => {
                        let mut details = owned_text(label);
                        push_text(&mut details, " must use YYYY-MM-DD");
                        Err(AppError::InvalidRequest { details })
                    },
                }
            }
        },
    }
}

/// An error when the range ends before it starts.
pub fn check_bounds(since: &Option<CalendarDate>, until: &Option<CalendarDate>) -> (res: Result<(), AppError>)
    ensures
        match (optional_day(*since), optional_day(*until)) {
            (Some(s), Some(u)) => if s > u {
                res matches Err(AppError::InvalidRequest { details }) && details@ == "since must be on or before until"@
            } else {
                res is Ok
            },
            _ => res is Ok,
        },
{
    match (since, until) {
        (Some(start), Some(end)) => {
            if start.days_from_ce() > end.days_from_ce() {
                return Err(AppError::InvalidRequest { details: "since must be on or before until".to_string() });
            }
            Ok(())
        },
        _ => Ok(()),
    }
}

/// The time zone of a request (see `chosen_timezone`).
pub fn choose_timezone(requested: Option<String>, settings: &Settings) -> (res: String)
    ensures
        res@ == chosen_timezone(requested, *settings),
{
    let fallback = match &settings.timezone {
        Some(z) => z.clone(),
        None => "UTC".to_string(),
    };
    match requested {
        Some(t) => {
            if !trim_text(t.as_str()).is_empty() {
                t
            } else {
                fallback
            }
        },
        None => fallback,
    }
}

fn format_bound(d: &Option<CalendarDate>) -> (res: Option<String>)
    ensures
        optional_text(res) == formatted_bound(optional_day(*d)),
{
    match d {
        Some(x) => Some(x.format_ymd()),
        None => None,
    }
}

impl UsageRequest {
    /// Works out the dates and time zone of the request on day `today` (see `normalized`).
    /// The range must not start before the first date that chrono can hold.
    pub fn normalize(self, settings: &Settings, today: CalendarDate) -> (res: Result<NormalizedUsageRequest, AppError>)
        requires
            today.day_number() - days_back(self.range) >= MIN_DAY,
        ensures
            normalized(self, *settings, today.day_number(), res),
    {
        let ghost req = self;
        let (since, until) = match self.range {
            RangeKind::Today => (Some(today), Some(today)),
            RangeKind::Last7Days => (Some(today.days_earlier(6)), Some(today)),
            RangeKind::Last30Days => (Some(today.days_earlier(29)), Some(today)),
            RangeKind::All => (None, None),
            RangeKind::Custom => {
                let s = match parse_optional_date(&self.since, "since") {
                    Ok(s) => s,
                    Err(e) => {
                        return Err(e);
                    },
                };
                let u = match parse_optional_date(&self.until, "until") {
                    Ok(u) => u,
                    Err(e) => {
                        return Err(e);
                    },
                };
                (s, u)
            },
        };
        match check_bounds(&since, &until) {
            Ok(()) => {},
            Err(e) => {
                return Err(e);
            },
        }
        let timezone = choose_timezone(self.timezone, settings);
        Ok(
            NormalizedUsageRequest {
                since: format_bound(&since),
                until: format_bound(&until),
                timezone,
                force_refresh: self.force_refresh,
            },
        )
    }
}

/// A request that normalizes covers its dates in order: its first date is on or before its
/// last.
pub proof fn law_normalized_bounds_ordered(
    req: UsageRequest,
    settings: Settings,
    today: int,
    res: Result<NormalizedUsageRequest, AppError>,
    since: int,
    until: int,
)
    requires
        normalized(req, settings, today, res),
        res is Ok,
        request_bounds(req, today) == Ok::<(Option<int>, Option<int>), Seq<char>>((Some(since), Some(until))),
    ensures
        since <= until,
{
}

/// The fixed ranges never fail: today, the last 7 and the last 30 days end today and span
/// 1, 7 and 30 days, and `All` has no bounds.
pub proof fn law_fixed_ranges_succeed(
    req: UsageRequest,
    settings: Settings,
    today: int,
    res: Result<NormalizedUsageRequest, AppError>,
)
    requires
        req.range != RangeKind::Custom,
        normalized(req, settings, today, res),
    ensures
        res is Ok,
        request_bounds(req, today) matches Ok((s, u)) && match req.range {
            RangeKind::All => s is None && u is None,
            RangeKind::Today => s == Some(today) && u == Some(today),
            RangeKind::Last7Days => s == Some(today - 6) && u == Some(today),
            _ => s == Some(today - 29) && u == Some(today),
        },
{
}

/// A custom range keeps each bound it is given, whatever the other bound is: a bound that
/// reads as a date is written as that date in the result, and an absent or blank bound
/// gives none.
pub proof fn law_custom_bounds_kept(
    req: UsageRequest,
    settings: Settings,
    today: int,
    res: Result<NormalizedUsageRequest, AppError>,
)
    requires
        req.range == RangeKind::Custom,
        normalized(req, settings, today, res),
    ensures
        res matches Ok(n) ==> match optional_date(req.since, "since"@) {
            Ok(Some(d)) => optional_text(n.since) == Some(formatted_date(d as i32, "%Y-%m-%d"@)),
            Ok(None) => n.since is None,
            Err(_) => false,
        },
        res matches Ok(n) ==> match optional_date(req.until, "until"@) {
            Ok(Some(d)) => optional_text(n.until) == Some(formatted_date(d as i32, "%Y-%m-%d"@)),
            Ok(None) => n.until is None,
            Err(_) => false,
        },
{
}

} // verus!
