//! The user's settings, and how a settings patch from the user interface applies to them.
use vstd::prelude::*;
use crate::errors::{AppError, optional_text};
use crate::paths::{join_path, joined, lemma_long_name_is_plain};
use crate::text::{chars_of, owned_text, push_char, push_text, text_from_chars, trim_text, trimmed};

verus! {

broadcast use vstd::string::group_string_axioms;

/// The longest cache lifetime a patch can set: one day.
pub const MAX_CACHE_TTL_SECONDS: u64 = 86400;

/// The shortest automatic refresh interval a patch can set.
pub const MIN_AUTO_REFRESH_SECONDS: u64 = 30;

/// The user's settings.
#[derive(Debug, Clone)]
pub struct Settings {
    /// Where `ccusage` is, when the user says so.
    pub ccusage_path: Option<String>,
    /// Configuration directories of the coding agent, comma-separated.
    pub claude_config_dirs: Option<String>,
    pub timezone: Option<String>,
    pub cache_ttl_seconds: u64,
    pub offline: bool,
    pub auto_refresh_seconds: Option<u64>,
    pub include_raw_json: bool,
}

impl Default for Settings {
    /// No path, directories or time zone; a five-minute cache; offline pricing; no
    /// automatic refresh; no raw JSON.
    fn default() -> (res: Settings)
        ensures
            res.ccusage_path is None,
            res.claude_config_dirs is None,
            res.timezone is None,
            res.cache_ttl_seconds == 300,
            res.offline,
            res.auto_refresh_seconds is None,
            !res.include_raw_json,
            within_limits(res),
    {
        Settings {
            ccusage_path: None,
            claude_config_dirs: None,
            timezone: None,
            cache_ttl_seconds: 300,
            offline: true,
            auto_refresh_seconds: None,
            include_raw_json: false,
        }
    }
}

/// The settings as the user interface sees them.
#[derive(Debug, Clone)]
pub struct SettingsDto {
    pub ccusage_path: Option<String>,
    pub claude_config_dirs: Option<String>,
    pub timezone: Option<String>,
    pub cache_ttl_seconds: u64,
    pub offline: bool,
    pub auto_refresh_seconds: Option<u64>,
    pub include_raw_json: bool,
}

impl From<Settings> for SettingsDto {
    /// The same settings, field for field.
    fn from(value: Settings) -> (res: SettingsDto)
        ensures
            res.ccusage_path == value.ccusage_path,
            res.claude_config_dirs == value.claude_config_dirs,
            res.timezone == value.timezone,
            res.cache_ttl_seconds == value.cache_ttl_seconds,
            res.offline == value.offline,
            res.auto_refresh_seconds == value.auto_refresh_seconds,
            res.include_raw_json == value.include_raw_json,
    {
        SettingsDto {
            ccusage_path: value.ccusage_path,
            claude_config_dirs: value.claude_config_dirs,
            timezone: value.timezone,
            cache_ttl_seconds: value.cache_ttl_seconds,
            offline: value.offline,
            auto_refresh_seconds: value.auto_refresh_seconds,
            include_raw_json: value.include_raw_json,
        }
    }
}

/// `from` states its result field by field; it is not a spec function of its argument.
impl vstd::std_specs::convert::FromSpecImpl<Settings> for SettingsDto {
    open spec fn obeys_from_spec() -> bool {
        false
    }

    open spec fn from_spec(v: Settings) -> SettingsDto {
        arbitrary()
    }
}

/// Changes to the settings: an absent field leaves the setting as it is; for the
/// optional settings, `Some(None)` clears it.
#[derive(Debug, Clone, Default)]
pub struct SettingsPatch {
    pub ccusage_path: Option<Option<String>>,
    pub claude_config_dirs: Option<Option<String>>,
    pub timezone: Option<Option<String>>,
    pub cache_ttl_seconds: Option<u64>,
    pub offline: Option<bool>,
    pub auto_refresh_seconds: Option<Option<u64>>,
    pub include_raw_json: Option<bool>,
}

/// The path of the settings file in `config_dir`: `config_dir`, the platform's separator
/// unless `config_dir` is empty, ends in a separator or is a bare drive, then
/// `settings.json` (see `joined`).
pub fn settings_path(config_dir: &str) -> (res: String)
    ensures
        joined(config_dir@, "settings.json"@, res@),
{
    proof {
        reveal_strlit("settings.json");
        lemma_long_name_is_plain("settings.json"@);
    }
    join_path(config_dir, "settings.json")
}

// ---------------------------------------------------------------------------------------
// Cleaning values
// ---------------------------------------------------------------------------------------

/// The pieces of `s` between commas, as `str::split(',')` gives them: one more piece than
/// there are commas.
pub open spec fn comma_split(s: Seq<char>) -> Seq<Seq<char>>
    decreases s.len(),
{
    if s.len() == 0 {
        seq![Seq::<char>::empty()]
    } else {
        let parts = comma_split(s.drop_last());
        if s.last() == ',' {
            parts.push(Seq::<char>::empty())
        } else {
            parts.update(parts.len() - 1, parts.last().push(s.last()))
        }
    }
}

/// The pieces, each trimmed, without the ones that were blank.
pub open spec fn kept_parts(parts: Seq<Seq<char>>) -> Seq<Seq<char>>
    decreases parts.len(),
{
    if parts.len() == 0 {
        seq![]
    } else {
        kept_parts(parts.drop_last()) + if trimmed(parts.last()).len() > 0 {
            seq![trimmed(parts.last())]
        } else {
            seq![]
        }
    }
}

/// The pieces joined with commas.
pub open spec fn join_commas(parts: Seq<Seq<char>>) -> Seq<char>
    decreases parts.len(),
{
    if parts.len() == 0 {
        seq![]
    } else if parts.len() == 1 {
        parts[0]
    } else {
        join_commas(parts.drop_last()) + seq![','] + parts.last()
    }
}

/// A comma-separated list with each entry trimmed and blank entries dropped; `None` when
/// nothing is left.
pub open spec fn cleaned_list(s: Seq<char>) -> Option<Seq<char>> {
    let j = join_commas(kept_parts(comma_split(s)));
    if j.len() > 0 {
        Some(j)
    } else {
        None
    }
}

/// The value trimmed, or `None` when it is blank.
pub open spec fn trimmed_value(s: Seq<char>) -> Option<Seq<char>> {
    if trimmed(s).len() > 0 {
        Some(trimmed(s))
    } else {
        None
    }
}

proof fn lemma_kept_parts_nonblank(parts: Seq<Seq<char>>)
    ensures
        forall|i: int| 0 <= i < kept_parts(parts).len() ==> (#[trigger] kept_parts(parts)[i]).len() > 0,
    decreases parts.len(),
{
    if parts.len() > 0 {
        lemma_kept_parts_nonblank(parts.drop_last());
        let prev = kept_parts(parts.drop_last());
        let tail: Seq<Seq<char>> = if trimmed(parts.last()).len() > 0 {
            seq![trimmed(parts.last())]
        } else {
            seq![]
        };
        assert(kept_parts(parts) == prev + tail);
        assert forall|i: int| 0 <= i < kept_parts(parts).len() implies (#[trigger] kept_parts(parts)[i]).len() > 0 by {
            if i < prev.len() {
                assert(kept_parts(parts)[i] == prev[i]);
            } else {
                assert(kept_parts(parts)[i] == tail[i - prev.len()]);
            }
        }
    }
}

proof fn lemma_join_commas_empty(parts: Seq<Seq<char>>)
    requires
        forall|i: int| 0 <= i < parts.len() ==> (#[trigger] parts[i]).len() > 0,
    ensures
        (join_commas(parts).len() == 0) == (parts.len() == 0),
    decreases parts.len(),
{
    if parts.len() > 1 {
        lemma_join_commas_empty(parts.drop_last());
    }
}

pub open spec fn texts_of(v: Seq<String>) -> Seq<Seq<char>> {
    v.map_values(|s: String| s@)
}

/// The value trimmed, or `None` when it is blank.
pub fn trimmed_nonblank(value: &str) -> (res: Option<String>)
    ensures
        optional_text(res) == trimmed_value(value@),
{
    let t = trim_text(value);
    if !t.is_empty() {
        Some(owned_text(t))
    } else {
        None
    }
}

fn keep_trimmed(kept: &mut Vec<String>, piece: &Vec<char>)
    ensures
        texts_of(final(kept)@) == texts_of(old(kept)@) + if trimmed(piece@).len() > 0 {
            seq![trimmed(piece@)]
        } else {
            seq![]
        },
{
    let text = text_from_chars(piece);
    match trimmed_nonblank(text.as_str()) {
        Some(t) => {
            kept.push(t);
            assert(texts_of(kept@) =~= texts_of(old(kept)@) + seq![trimmed(piece@)]);
        },
        None => {
            assert(texts_of(kept@) =~= texts_of(old(kept)@) + seq![]);
        },
    }
}

/// A comma-separated list with each entry trimmed and blank entries dropped; `None` when
/// nothing is left.
pub fn clean_list(value: &str) -> (res: Option<String>)
    ensures
        optional_text(res) == cleaned_list(value@),
{
    let cs = chars_of(value);
    let mut kept: Vec<String> = Vec::new();
    let mut cur: Vec<char> = Vec::new();
    let ghost mut done: Seq<Seq<char>> = seq![];
    let mut i: usize = 0;
    assert(cs@.take(0) == Seq::<char>::empty());
    while i < cs.len()
        invariant
            i <= cs.len(),
            cs@ == value@,
            comma_split(cs@.take(i as int)) == done.push(cur@),
            texts_of(kept@) == kept_parts(done),
        decreases cs.len() - i,
    {
        let c = cs[i];
        assert(cs@.take(i + 1).drop_last() == cs@.take(i as int));
        assert(cs@.take(i + 1).last() == c);
        if c == ',' {
            keep_trimmed(&mut kept, &cur);
            proof {
                assert(done.push(cur@).drop_last() == done);
                assert(done.push(cur@).last() == cur@);
                done = done.push(cur@);
            }
            cur = Vec::new();
        } else {
            cur.push(c);
            proof {
                assert(done.push(cur@.drop_last()).update(done.len() as int, cur@) == done.push(cur@));
            }
        }
        i = i + 1;
    }
    assert(cs@.take(cs.len() as int) == cs@);
    keep_trimmed(&mut kept, &cur);
    proof {
        assert(done.push(cur@).drop_last() == done);
        assert(done.push(cur@).last() == cur@);
        lemma_kept_parts_nonblank(comma_split(value@));
        lemma_join_commas_empty(kept_parts(comma_split(value@)));
    }
    let ghost parts = texts_of(kept@);
    let mut out = String::new();
    let mut j: usize = 0;
    while j < kept.len()
        invariant
            j <= kept.len(),
            parts == texts_of(kept@),
            out@ == join_commas(parts.take(j as int)),
        decreases kept.len() - j,
    {
        assert(parts.take(j + 1).drop_last() == parts.take(j as int));
        assert(parts.take(j + 1).last() == kept@[j as int]@);
        if j > 0 {
            push_char(&mut out, ',');
        }
        push_text(&mut out, kept[j].as_str());
        assert(parts.take(1) == seq![parts[0]]);
        j = j + 1;
    }
    assert(parts.take(kept.len() as int) == parts);
    if !out.as_str().is_empty() {
        Some(out)
    } else {
        None
    }
}

// ---------------------------------------------------------------------------------------
// Applying a patch
// ---------------------------------------------------------------------------------------

/// The settings after `patch`: each field the patch holds replaces the setting; a path or
/// time zone is trimmed and cleared when blank; the directory list is cleaned (see
/// `cleaned_list`); the cache lifetime is capped at one day; an automatic refresh under
/// thirty seconds is cleared.
pub open spec fn patched(old: Settings, patch: SettingsPatch, new: Settings) -> bool {
    &&& match patch.ccusage_path {
        Some(p) => optional_text(new.ccusage_path) == match p {
            Some(v) => trimmed_value(v@),
            None => None,
        },
        None => new.ccusage_path == old.ccusage_path,
    }
    &&& match patch.claude_config_dirs {
        Some(d) => optional_text(new.claude_config_dirs) == match d {
            Some(v) => cleaned_list(v@),
            None => None,
        },
        None => new.claude_config_dirs == old.claude_config_dirs,
    }
    &&& match patch.timezone {
        Some(t) => optional_text(new.timezone) == match t {
            Some(v) => trimmed_value(v@),
            None => None,
        },
        None => new.timezone == old.timezone,
    }
    &&& new.cache_ttl_seconds == match patch.cache_ttl_seconds {
        Some(t) => if t < MAX_CACHE_TTL_SECONDS {
            t
        } else {
            MAX_CACHE_TTL_SECONDS
        },
        None => old.cache_ttl_seconds,
    }
    &&& new.offline == match patch.offline {
        Some(o) => o,
        None => old.offline,
    }
    &&& new.auto_refresh_seconds == match patch.auto_refresh_seconds {
        Some(Some(v)) => if v >= MIN_AUTO_REFRESH_SECONDS {
            Some(v)
        } else {
            None
        },
        Some(None) => None,
        None => old.auto_refresh_seconds,
    }
    &&& new.include_raw_json == match patch.include_raw_json {
        Some(r) => r,
        None => old.include_raw_json,
    }
}

/// Applies `patch` to `settings` (see `patched`). It always succeeds.
pub fn apply_patch(settings: &mut Settings, patch: SettingsPatch) -> (res: Result<(), AppError>)
    ensures
        res is Ok,
        patched(*old(settings), patch, *final(settings)),
{
    let ghost p = patch;
    match patch.ccusage_path {
        Some(path) => {
            settings.ccusage_path = match path {
                Some(value) => trimmed_nonblank(value.as_str()),
                None => None,
            };
        },
        None => {},
    }
    match patch.claude_config_dirs {
        Some(dirs) => {
            settings.claude_config_dirs = match dirs {
                Some(value) => clean_list(value.as_str()),
                None => None,
            };
        },
        None => {},
    }
    match patch.timezone {
        Some(timezone) => {
            settings.timezone = match timezone {
                Some(value) => trimmed_nonblank(value.as_str()),
                None => None,
            };
        },
        None => {},
    }
    match patch.cache_ttl_seconds {
        Some(ttl) => {
            settings.cache_ttl_seconds = if ttl < MAX_CACHE_TTL_SECONDS {
                ttl
            } else {
                MAX_CACHE_TTL_SECONDS
            };
        },
        None => {},
    }
    match patch.offline {
        Some(offline) => {
            settings.offline = offline;
        },
        None => {},
    }
    match patch.auto_refresh_seconds {
        Some(auto_refresh) => {
            settings.auto_refresh_seconds = match auto_refresh {
                Some(v) => if v >= MIN_AUTO_REFRESH_SECONDS {
                    Some(v)
                } else {
                    None
                },
                None => None,
            };
        },
        None => {},
    }
    match patch.include_raw_json {
        Some(include_raw_json) => {
            settings.include_raw_json = include_raw_json;
        },
        None => {},
    }
    Ok(())
}

/// Two settings that read the same: the same texts where texts are set, the same values
/// elsewhere.
pub open spec fn same_settings(a: Settings, b: Settings) -> bool {
    &&& optional_text(a.ccusage_path) == optional_text(b.ccusage_path)
    &&& optional_text(a.claude_config_dirs) == optional_text(b.claude_config_dirs)
    &&& optional_text(a.timezone) == optional_text(b.timezone)
    &&& a.cache_ttl_seconds == b.cache_ttl_seconds
    &&& a.offline == b.offline
    &&& a.auto_refresh_seconds == b.auto_refresh_seconds
    &&& a.include_raw_json == b.include_raw_json
}

/// The limits that the settings keep: a cache lifetime of at most a day, and no automatic
/// refresh under thirty seconds.
pub open spec fn within_limits(s: Settings) -> bool {
    &&& s.cache_ttl_seconds <= MAX_CACHE_TTL_SECONDS
    &&& match s.auto_refresh_seconds {
        Some(v) => v >= MIN_AUTO_REFRESH_SECONDS,
        None => true,
    }
}

/// A patch that holds no field changes nothing.
pub proof fn law_empty_patch_changes_nothing(old: Settings, patch: SettingsPatch, new: Settings)
    requires
        patch.ccusage_path is None,
        patch.claude_config_dirs is None,
        patch.timezone is None,
        patch.cache_ttl_seconds is None,
        patch.offline is None,
        patch.auto_refresh_seconds is None,
        patch.include_raw_json is None,
        patched(old, patch, new),
    ensures
        new == old,
{
}

/// Applying a patch twice is applying it once.
pub proof fn law_patch_idempotent(s0: Settings, patch: SettingsPatch, s1: Settings, s2: Settings)
    requires
        patched(s0, patch, s1),
        patched(s1, patch, s2),
    ensures
        same_settings(s1, s2),
{
}

/// The default settings are within the limits, and every patch keeps them there.
pub proof fn law_patch_keeps_limits(old: Settings, patch: SettingsPatch, new: Settings)
    requires
        within_limits(old),
        patched(old, patch, new),
    ensures
        within_limits(new),
{
}

/// Each field that a patch holds replaces the setting, and each field it leaves out keeps
/// it: a flag is set to the patch's value; a lifetime is set, capped at one day; a refresh
/// interval is set when it is at least thirty seconds and cleared otherwise; a path or time
/// zone is set to the trimmed text, or cleared when the patch clears it or the text is
/// blank; the directory list is cleared when the patch clears it.
pub proof fn law_patch_replaces_held_fields(old: Settings, patch: SettingsPatch, new: Settings)
    requires
        patched(old, patch, new),
    ensures
        patch.offline matches Some(o) ==> new.offline == o,
        patch.offline is None ==> new.offline == old.offline,
        patch.include_raw_json matches Some(j) ==> new.include_raw_json == j,
        patch.include_raw_json is None ==> new.include_raw_json == old.include_raw_json,
        patch.cache_ttl_seconds matches Some(t) ==> new.cache_ttl_seconds == if t <= 86400 {
            t
        } else {
            86400
        },
        patch.cache_ttl_seconds is None ==> new.cache_ttl_seconds == old.cache_ttl_seconds,
        patch.auto_refresh_seconds matches Some(Some(v)) ==> new.auto_refresh_seconds == if v >= 30 {
            Some(v)
        } else {
            None::<u64>
        },
        patch.auto_refresh_seconds == Some(None::<u64>) ==> new.auto_refresh_seconds is None,
        patch.auto_refresh_seconds is None ==> new.auto_refresh_seconds == old.auto_refresh_seconds,
        patch.timezone matches Some(Some(v)) ==> if trimmed(v@).len() > 0 {
            new.timezone matches Some(t) && t@ == trimmed(v@)
        } else {
            new.timezone is None
        },
        patch.timezone matches Some(None) ==> new.timezone is None,
        patch.timezone is None ==> new.timezone == old.timezone,
        patch.ccusage_path matches Some(Some(v)) ==> if trimmed(v@).len() > 0 {
            new.ccusage_path matches Some(t) && t@ == trimmed(v@)
        } else {
            new.ccusage_path is None
        },
        patch.ccusage_path matches Some(None) ==> new.ccusage_path is None,
        patch.ccusage_path is None ==> new.ccusage_path == old.ccusage_path,
        patch.claude_config_dirs matches Some(None) ==> new.claude_config_dirs is None,
        patch.claude_config_dirs is None ==> new.claude_config_dirs == old.claude_config_dirs,
{
}

} // verus!
