//! Running `ccusage`: where to look for it, the command line, and what its output means.
use vstd::prelude::*;
use crate::errors::AppError;
use crate::models::NormalizedUsageRequest;
use crate::paths::{join_path, joined, is_plain_name, lemma_long_name_is_plain};
use crate::settings::{Settings, texts_of};
use crate::text::{chars_of, owned_text, push_text, text_from_chars, trim_text, trimmed};

verus! {

broadcast use vstd::string::group_string_axioms;

/// How many characters of `ccusage`'s error output an error keeps.
pub const STDERR_LIMIT: usize = 4000;

/// What one run of `ccusage` gave.
#[derive(Debug, Clone)]
pub struct CcusageRun {
    pub stdout: String,
    pub stderr: Option<String>,
    pub command: Vec<String>,
    pub ccusage_version: Option<String>,
}

/// The output of a successful run.
#[derive(Debug, Clone)]
pub struct CapturedOutput {
    pub stdout: String,
    pub stderr: Option<String>,
}

// ---------------------------------------------------------------------------------------
// The command line
// ---------------------------------------------------------------------------------------

pub open spec fn flag_if(on: bool, flag: Seq<char>) -> Seq<Seq<char>> {
    if on {
        seq![flag]
    } else {
        seq![]
    }
}

pub open spec fn option_pair(flag: Seq<char>, value: Option<String>) -> Seq<Seq<char>> {
    match value {
        Some(v) => seq![flag, v@],
        None => seq![],
    }
}

/// The arguments of a daily report: `daily --json --timezone <tz>`, then `--offline` when
/// pricing is offline, then `--since <date>` and `--until <date>` for the bounds there are.
pub open spec fn daily_args(settings: Settings, request: NormalizedUsageRequest) -> Seq<Seq<char>> {
    seq!["daily"@, "--json"@, "--timezone"@, request.timezone@] + flag_if(settings.offline, "--offline"@)
        + option_pair("--since"@, request.since) + option_pair("--until"@, request.until)
}

/// The arguments that ask `ccusage` for the daily report of `request`, as separate
/// arguments (no shell string).
pub fn build_daily_args(settings: &Settings, request: &NormalizedUsageRequest) -> (res: Vec<String>)
    ensures
        texts_of(res@) == daily_args(*settings, *request),
{
    let mut args: Vec<String> = Vec::new();
    args.push("daily".to_string());
    args.push("--json".to_string());
    args.push("--timezone".to_string());
    args.push(request.timezone.clone());
    let ghost first = texts_of(args@);
    assert(first == seq!["daily"@, "--json"@, "--timezone"@, request.timezone@]);
    if settings.offline {
        args.push("--offline".to_string());
    }
    let ghost second = texts_of(args@);
    assert(second == first + flag_if(settings.offline, "--offline"@));
    match &request.since {
        Some(since) => {
            args.push("--since".to_string());
            args.push(since.clone());
        },
        None => {},
    }
    let ghost third = texts_of(args@);
    assert(third == second + option_pair("--since"@, request.since));
    match &request.until {
        Some(until) => {
            args.push("--until".to_string());
            args.push(until.clone());
        },
        None => {},
    }
    assert(texts_of(args@) == third + option_pair("--until"@, request.until));
    args
}

/// `--offline` is among the arguments exactly when pricing is offline, provided that no
/// value of the request is itself the text `--offline`.
pub proof fn law_offline_flag(settings: Settings, request: NormalizedUsageRequest)
    requires
        request.timezone@ != "--offline"@,
        request.since matches Some(s) ==> s@ != "--offline"@,
        request.until matches Some(u) ==> u@ != "--offline"@,
    ensures
        daily_args(settings, request).contains("--offline"@) <==> settings.offline,
{
    reveal_strlit("daily");
    reveal_strlit("--json");
    reveal_strlit("--timezone");
    reveal_strlit("--offline");
    reveal_strlit("--since");
    reveal_strlit("--until");
    let args = daily_args(settings, request);
    if settings.offline {
        assert(args[4] == "--offline"@);
    } else {
        assert(args == seq!["daily"@, "--json"@, "--timezone"@, request.timezone@] + option_pair(
            "--since"@,
            request.since,
        ) + option_pair("--until"@, request.until));
        assert(!args.contains("--offline"@)) by {
            if args.contains("--offline"@) {
                let i = choose|i: int| 0 <= i < args.len() && args[i] == "--offline"@;
                assert(args[i].len() == 9);
            }
        }
    }
}

/// The environment that `ccusage` runs with: `CLAUDE_CONFIG_DIR` set to the configured
/// configuration directories of the coding agent, when there are any.
pub open spec fn command_env(settings: Settings) -> Seq<(Seq<char>, Seq<char>)> {
    match settings.claude_config_dirs {
        Some(dirs) => seq![("CLAUDE_CONFIG_DIR"@, dirs@)],
        None => seq![],
    }
}

/// The environment variables to set for a run of `ccusage` (see `command_env`).
pub fn command_environment(settings: &Settings) -> (res: Vec<(String, String)>)
    ensures
        res@.len() == command_env(*settings).len(),
        forall|i: int|
            0 <= i < res@.len() ==> (#[trigger] res@[i]).0@ == command_env(*settings)[i].0 && res@[i].1@
                == command_env(*settings)[i].1,
{
    let mut env: Vec<(String, String)> = Vec::new();
    match &settings.claude_config_dirs {
        Some(dirs) => {
            env.push(("CLAUDE_CONFIG_DIR".to_string(), dirs.clone()));
        },
        None => {},
    }
    env
}

/// The full command: the executable, then its arguments.
pub fn command_line(executable: String, args: Vec<String>) -> (res: Vec<String>)
    ensures
        texts_of(res@) == seq![executable@] + texts_of(args@),
{
    let mut out: Vec<String> = Vec::new();
    out.push(executable);
    let mut i: usize = 0;
    while i < args.len()
        invariant
            i <= args.len(),
            texts_of(out@) == seq![executable@] + texts_of(args@).take(i as int),
        decreases args.len() - i,
    {
        let ghost prev = texts_of(out@);
        out.push(args[i].clone());
        assert(texts_of(out@) =~= prev.push(args@[i as int]@));
        assert(texts_of(args@).take(i + 1) =~= texts_of(args@).take(i as int).push(args@[i as int]@));
        i = i + 1;
    }
    assert(texts_of(args@).take(args.len() as int) == texts_of(args@));
    out
}

// ---------------------------------------------------------------------------------------
// Output
// ---------------------------------------------------------------------------------------

/// `s` cut to its first `max` characters, with `...` after, when it is longer.
pub open spec fn truncated(s: Seq<char>, max: nat) -> Seq<char> {
    if s.len() <= max {
        s
    } else {
        s.take(max as int) + "..."@
    }
}

/// Cutting keeps a text that is short enough as it is; a longer one keeps its first `max`
/// characters and is at most three characters over.
pub proof fn law_truncated_bounds(s: Seq<char>, max: nat)
    ensures
        s.len() <= max ==> truncated(s, max) == s,
        s.len() > max ==> truncated(s, max).len() == max + 3 && truncated(s, max).take(max as int)
            == s.take(max as int),
{
    reveal_strlit("...");
    if s.len() > max {
        assert(truncated(s, max).take(max as int) =~= s.take(max as int));
    }
}

/// `value` cut to its first `max_chars` characters, with `...` after, when it is longer.
pub fn truncate(value: &str, max_chars: usize) -> (res: String)
    ensures
        res@ == truncated(value@, max_chars as nat),
{
    let cs = chars_of(value);
    if cs.len() <= max_chars {
        return owned_text(value);
    }
    let mut head: Vec<char> = Vec::new();
    let mut i: usize = 0;
    while i < max_chars
        invariant
            i <= max_chars < cs.len(),
            head@ == cs@.take(i as int),
        decreases max_chars - i,
    {
        head.push(cs[i]);
        assert(cs@.take(i + 1) == cs@.take(i as int).push(cs@[i as int]));
        i = i + 1;
    }
    let mut out = text_from_chars(&head);
    push_text(&mut out, "...");
    out
}

/// The version that `ccusage --version` printed: its output, trimmed.
pub fn version_from_output(stdout: &str) -> (res: String)
    ensures
        res@ == trimmed(stdout@),
{
    owned_text(trim_text(stdout))
}

/// What a finished run of `ccusage` means: a non-zero exit is an error carrying the exit
/// code and the error output cut to `STDERR_LIMIT` characters; otherwise the output, with
/// the error output (cut likewise) only when it is not blank.
pub fn captured_output(stdout: String, stderr: String, success: bool, exit_code: Option<i32>) -> (res: Result<
    CapturedOutput,
    AppError,
>)
    ensures
        !success ==> (res matches Err(AppError::NonZeroExit { exit_code: c, stderr: e }) && c == exit_code
            && e@ == truncated(stderr@, STDERR_LIMIT as nat)),
        success ==> (res matches Ok(out) && out.stdout == stdout && match out.stderr {
            Some(e) => trimmed(stderr@).len() > 0 && e@ == truncated(stderr@, STDERR_LIMIT as nat),
            None => trimmed(stderr@).len() == 0,
        }),
{
    if !success {
        return Err(AppError::NonZeroExit { exit_code, stderr: truncate(stderr.as_str(), STDERR_LIMIT) });
    }
    let kept = if !trim_text(stderr.as_str()).is_empty() {
        Some(truncate(stderr.as_str(), STDERR_LIMIT))
    } else {
        None
    };
    Ok(CapturedOutput { stdout, stderr: kept })
}

// ---------------------------------------------------------------------------------------
// Finding ccusage
// ---------------------------------------------------------------------------------------

/// The file names under which `ccusage` may be installed.
pub open spec fn executable_names_for(windows: bool) -> Seq<Seq<char>> {
    if windows {
        seq!["ccusage.exe"@, "ccusage.cmd"@, "ccusage.bat"@, "ccusage"@]
    } else {
        seq!["ccusage"@]
    }
}

/// The file names under which `ccusage` may be installed on this platform.
pub fn executable_names(windows: bool) -> (res: Vec<String>)
    ensures
        texts_of(res@) == executable_names_for(windows),
        forall|i: int| 0 <= i < res@.len() ==> is_plain_name(#[trigger] res@[i]@),
{
    proof {
        reveal_strlit("ccusage.exe");
        reveal_strlit("ccusage.cmd");
        reveal_strlit("ccusage.bat");
        reveal_strlit("ccusage");
        lemma_long_name_is_plain("ccusage.exe"@);
        lemma_long_name_is_plain("ccusage.cmd"@);
        lemma_long_name_is_plain("ccusage.bat"@);
        lemma_long_name_is_plain("ccusage"@);
    }
    let mut names: Vec<String> = Vec::new();
    if windows {
        names.push("ccusage.exe".to_string());
        names.push("ccusage.cmd".to_string());
        names.push("ccusage.bat".to_string());
    }
    names.push("ccusage".to_string());
    assert(texts_of(names@) == executable_names_for(windows));
    names
}

/// Each of `names` joined onto `dir`, in order.
pub open spec fn joined_block(dir: Seq<char>, names: Seq<Seq<char>>, block: Seq<Seq<char>>) -> bool {
    &&& block.len() == names.len()
    &&& forall|j: int| 0 <= j < names.len() ==> joined(dir, #[trigger] names[j], block[j])
}

/// For each directory in order, each name joined onto it.
pub open spec fn search_order(dirs: Seq<Seq<char>>, names: Seq<Seq<char>>, res: Seq<Seq<char>>) -> bool
    decreases dirs.len(),
{
    if dirs.len() == 0 {
        res.len() == 0
    } else {
        &&& res.len() >= names.len()
        &&& search_order(dirs.drop_last(), names, res.take(res.len() - names.len()))
        &&& joined_block(dirs.last(), names, res.skip(res.len() - names.len()))
    }
}

/// The places to look for `ccusage`: each name in each directory, directory by directory.
pub fn search_paths(dirs: &Vec<String>, names: &Vec<String>) -> (res: Vec<String>)
    requires
        forall|i: int| 0 <= i < names@.len() ==> is_plain_name(#[trigger] names@[i]@),
    ensures
        search_order(texts_of(dirs@), texts_of(names@), texts_of(res@)),
{
    let ghost ds = texts_of(dirs@);
    let ghost ns = texts_of(names@);
    let mut out: Vec<String> = Vec::new();
    let mut i: usize = 0;
    assert(ds.take(0) == Seq::<Seq<char>>::empty());
    while i < dirs.len()
        invariant
            i <= dirs.len(),
            ds == texts_of(dirs@),
            ns == texts_of(names@),
            forall|k: int| 0 <= k < names@.len() ==> is_plain_name(#[trigger] names@[k]@),
            search_order(ds.take(i as int), ns, texts_of(out@)),
        decreases dirs.len() - i,
    {
        let ghost before = texts_of(out@);
        let mut j: usize = 0;
        while j < names.len()
            invariant
                i < dirs.len(),
                j <= names.len(),
                ds == texts_of(dirs@),
                ns == texts_of(names@),
                forall|k: int| 0 <= k < names@.len() ==> is_plain_name(#[trigger] names@[k]@),
                texts_of(out@).len() == before.len() + j,
                texts_of(out@).take(before.len() as int) == before,
                joined_block(ds[i as int], ns.take(j as int), texts_of(out@).skip(before.len() as int)),
            decreases names.len() - j,
        {
            let ghost prev = texts_of(out@);
            let c = join_path(dirs[i].as_str(), names[j].as_str());
            out.push(c);
            proof {
                let now = texts_of(out@);
                assert(now == prev.push(c@));
                assert(now.take(before.len() as int) == prev.take(before.len() as int));
                let blk = now.skip(before.len() as int);
                assert(blk == prev.skip(before.len() as int).push(c@));
                assert forall|k: int| 0 <= k < ns.take(j + 1).len() implies joined(ds[i as int], #[trigger] ns.take(j + 1)[k], blk[k]) by {
                    if k < j {
                        assert(ns.take(j + 1)[k] == ns.take(j as int)[k]);
                        assert(blk[k] == prev.skip(before.len() as int)[k]);
                    }
                }
            }
            j = j + 1;
        }
        proof {
            let now = texts_of(out@);
            assert(ns.take(names.len() as int) == ns);
            assert(ds.take(i + 1).drop_last() == ds.take(i as int));
            assert(ds.take(i + 1).last() == ds[i as int]);
            assert(now.take(now.len() - ns.len()) == before);
        }
        i = i + 1;
    }
    assert(ds.take(dirs.len() as int) == ds);
    out
}

/// The configured path, as a list of at most one candidate.
pub open spec fn configured_candidate(configured: Option<String>) -> Seq<Seq<char>> {
    match configured {
        Some(p) => seq![p@],
        None => seq![],
    }
}

/// The home directory: `USERPROFILE`, else `HOME`.
pub open spec fn home_dir(user_profile: Option<String>, home: Option<String>) -> Option<Seq<char>> {
    match user_profile {
        Some(p) => Some(p@),
        None => match home {
            Some(h) => Some(h@),
            None => None,
        },
    }
}

/// The directories where installers commonly put `ccusage`: `.bun/bin` in the home
/// directory, then `npm` in `APPDATA`.
pub open spec fn install_dirs_are(
    user_profile: Option<String>,
    home: Option<String>,
    app_data: Option<String>,
    res: Seq<Seq<char>>,
) -> bool {
    let n_home: int = if home_dir(user_profile, home) is Some { 1 } else { 0 };
    &&& res.len() == n_home + if app_data is Some { 1int } else { 0int }
    &&& home_dir(user_profile, home) is Some ==> exists|mid: Seq<char>|
        #[trigger] joined(home_dir(user_profile, home).unwrap(), ".bun"@, mid) && joined(mid, "bin"@, res[0])
    &&& app_data is Some ==> joined(app_data.unwrap()@, "npm"@, res[n_home])
}

/// The directories where installers commonly put `ccusage` (see `install_dirs_are`).
pub fn install_dirs(user_profile: &Option<String>, home: &Option<String>, app_data: &Option<String>) -> (res: Vec<String>)
    ensures
        install_dirs_are(*user_profile, *home, *app_data, texts_of(res@)),
{
    proof {
        reveal_strlit(".bun");
        reveal_strlit("bin");
        reveal_strlit("npm");
        lemma_long_name_is_plain(".bun"@);
        lemma_long_name_is_plain("bin"@);
        lemma_long_name_is_plain("npm"@);
    }
    let mut dirs: Vec<String> = Vec::new();
    let base: Option<&String> = match user_profile {
        Some(p) => Some(p),
        None => match home {
            Some(h) => Some(h),
            None => None,
        },
    };
    let ghost mut mid_text: Seq<char> = seq![];
    match base {
        Some(b) => {
            let mid = join_path(b.as_str(), ".bun");
            let d = join_path(mid.as_str(), "bin");
            proof {
                mid_text = mid@;
            }
            dirs.push(d);
        },
        None => {},
    }
    let ghost home_part = dirs@;
    match app_data {
        Some(a) => {
            let n = join_path(a.as_str(), "npm");
            dirs.push(n);
            assert(texts_of(dirs@)[home_part.len() as int] == n@);
        },
        None => {},
    }
    proof {
        let res = texts_of(dirs@);
        assert(res.len() == dirs@.len());
        match base {
            Some(b) => {
                assert(home_part.len() == 1);
                assert(dirs@[0] == home_part[0]);
                assert(home_dir(*user_profile, *home) == Some(b@));
                assert(joined(home_dir(*user_profile, *home).unwrap(), ".bun"@, mid_text));
                assert(joined(mid_text, "bin"@, res[0]));
            },
            None => {
                assert(home_dir(*user_profile, *home) is None);
                assert(home_part.len() == 0);
            },
        }
        assert(install_dirs_are(*user_profile, *home, *app_data, res));
    }
    dirs
}

/// The places to look for `ccusage`, in order: the configured path, then each executable
/// name in each `PATH` directory, then each name in each install directory (see
/// `install_dirs_are`).
pub open spec fn candidates_are(
    settings: Settings,
    path_dirs: Seq<Seq<char>>,
    user_profile: Option<String>,
    home: Option<String>,
    app_data: Option<String>,
    windows: bool,
    res: Seq<Seq<char>>,
) -> bool {
    exists|install: Seq<Seq<char>>, on_path: Seq<Seq<char>>, known: Seq<Seq<char>>|
        #![trigger install_dirs_are(user_profile, home, app_data, install), search_order(path_dirs, executable_names_for(windows), on_path), search_order(install, executable_names_for(windows), known)]
        install_dirs_are(user_profile, home, app_data, install)
        && search_order(path_dirs, executable_names_for(windows), on_path)
        && search_order(install, executable_names_for(windows), known)
        && res == configured_candidate(settings.ccusage_path) + on_path + known
}

/// The places to look for `ccusage` (see `candidates_are`), given the `PATH` directories,
/// the `USERPROFILE`, `HOME` and `APPDATA` variables, and whether the platform is Windows.
pub fn candidate_paths(
    settings: &Settings,
    path_dirs: &Vec<String>,
    user_profile: &Option<String>,
    home: &Option<String>,
    app_data: &Option<String>,
    windows: bool,
) -> (res: Vec<String>)
    ensures
        candidates_are(*settings, texts_of(path_dirs@), *user_profile, *home, *app_data, windows, texts_of(res@)),
{
    let install = install_dirs(user_profile, home, app_data);
    let names = executable_names(windows);
    let mut out: Vec<String> = Vec::new();
    match &settings.ccusage_path {
        Some(p) => {
            out.push(p.clone());
        },
        None => {},
    }
    assert(texts_of(out@) == configured_candidate(settings.ccusage_path));
    let mut on_path = search_paths(path_dirs, &names);
    let mut known = search_paths(&install, &names);
    let ghost a = texts_of(on_path@);
    let ghost b = texts_of(known@);
    let ghost first = texts_of(out@);
    out.append(&mut on_path);
    assert(texts_of(out@) =~= first + a);
    out.append(&mut known);
    assert(texts_of(out@) =~= first + a + b);
    assert(install_dirs_are(*user_profile, *home, *app_data, texts_of(install@)));
    out
}

/// Whether `exists` says that the `i`-th candidate exists; a missing answer counts as no.
pub open spec fn exists_at(exists: Seq<bool>, i: int) -> bool {
    0 <= i < exists.len() && exists[i]
}

/// The first candidate that exists.
pub open spec fn first_existing(candidates: Seq<Seq<char>>, exists: Seq<bool>, res: Option<Seq<char>>) -> bool {
    match res {
        Some(p) => exists|i: int|
            0 <= i < candidates.len() && exists_at(exists, i) && candidates[i] == p && forall|j: int|
                0 <= j < i ==> !#[trigger] exists_at(exists, j),
        None => forall|j: int| 0 <= j < candidates.len() ==> !#[trigger] exists_at(exists, j),
    }
}

/// Where `ccusage` is: the first of the places of `candidate_paths` (with the same
/// arguments) that exists, where `exists[i]` says whether the `i`-th of them does. So the
/// configured path when it exists; else the first name in the first `PATH` directory that
/// has one; else the same over the install directories; else `None`.
pub fn resolve_ccusage_path(
    settings: &Settings,
    path_dirs: &Vec<String>,
    user_profile: &Option<String>,
    home: &Option<String>,
    app_data: &Option<String>,
    windows: bool,
    exists: &Vec<bool>,
) -> (res: Option<String>)
    ensures
        exists|candidates: Seq<Seq<char>>|
            #[trigger] candidates_are(*settings, texts_of(path_dirs@), *user_profile, *home, *app_data, windows, candidates)
                && first_existing(candidates, exists@, match res {
                Some(p) => Some(p@),
                None => None,
            }),
{
    let candidates = candidate_paths(settings, path_dirs, user_profile, home, app_data, windows);
    let ghost cs = texts_of(candidates@);
    let mut i: usize = 0;
    while i < candidates.len()
        invariant
            i <= candidates.len(),
            cs == texts_of(candidates@),
            candidates_are(*settings, texts_of(path_dirs@), *user_profile, *home, *app_data, windows, cs),
            forall|j: int| 0 <= j < i ==> !#[trigger] exists_at(exists@, j),
        decreases candidates.len() - i,
    {
        if i < exists.len() && exists[i] {
            let found = candidates[i].clone();
            assert(cs[i as int] == found@);
            assert(exists_at(exists@, i as int));
            assert(first_existing(cs, exists@, Some(found@)));
            return Some(found);
        }
        i = i + 1;
    }
    assert(first_existing(cs, exists@, None));
    None
}

} // verus!
