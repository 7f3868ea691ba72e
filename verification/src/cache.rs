//! Cached usage reports: the cache key of a request, freshness, and the in-memory cache.
use vstd::prelude::*;
use crate::dates::{now_timestamp, MAX_TIMESTAMP};
use crate::models::{NormalizedUsageRequest, UsageResponse, same_report};
use crate::paths::{join_path, joined, lemma_long_name_is_plain};
use crate::settings::Settings;
use crate::text::{owned_text, push_text, text_eq};

verus! {

broadcast use vstd::string::group_string_axioms;

/// A usage report as cached, with the key of its request and when it was made.
#[derive(Debug)]
pub struct CachedEntry {
    pub key: String,
    /// Unix time, in seconds, when the entry was made.
    pub cached_at_epoch: i64,
    pub response: UsageResponse,
}

/// Whether two entries hold the same values.
pub open spec fn same_entry(a: CachedEntry, b: CachedEntry) -> bool {
    &&& a.key == b.key
    &&& a.cached_at_epoch == b.cached_at_epoch
    &&& same_report(a.response, b.response)
}

impl Clone for CachedEntry {
    fn clone(&self) -> (res: CachedEntry)
        ensures
            same_entry(res, *self),
    {
        CachedEntry {
            key: self.key.clone(),
            cached_at_epoch: self.cached_at_epoch,
            response: self.response.clone(),
        }
    }
}

/// Whether an entry made at `cached_at` is fresh at time `now` for a lifetime of `ttl`
/// seconds: a lifetime of zero means never; otherwise its age is between zero and the
/// lifetime (the lifetime read as an `i64`).
pub open spec fn fresh_at(cached_at: int, ttl: u64, now: int) -> bool {
    ttl != 0 && 0 <= now - cached_at && now - cached_at <= ttl as i64
}

impl CachedEntry {
    /// An entry for `response` under `key`, made now.
    pub fn new(key: String, response: UsageResponse) -> (res: CachedEntry)
        ensures
            res.key == key,
            res.response == response,
            0 <= res.cached_at_epoch <= MAX_TIMESTAMP,
    {
        CachedEntry { key, cached_at_epoch: now_timestamp(), response }
    }

    /// Whether the entry is fresh at time `now` (see `fresh_at`). An age that does not fit
    /// in an `i64` is far outside any lifetime.
    pub fn is_fresh_at(&self, ttl_seconds: u64, now: i64) -> (res: bool)
        ensures
            res == fresh_at(self.cached_at_epoch as int, ttl_seconds, now as int),
    {
        if ttl_seconds == 0 {
            return false;
        }
        match now.checked_sub(self.cached_at_epoch) {
            Some(age) => age >= 0 && age <= ttl_seconds as i64,
            None => false,
        }
    }

    /// Whether the entry is fresh now (see `fresh_at`): the answer at some time that the
    /// clock can give.
    pub fn is_fresh(&self, ttl_seconds: u64) -> (res: bool)
        ensures
            exists|now: int| 0 <= now <= MAX_TIMESTAMP && res == fresh_at(self.cached_at_epoch as int, ttl_seconds, now),
            ttl_seconds == 0 ==> !res,
            res ==> self.cached_at_epoch <= MAX_TIMESTAMP,
    {
        let now = now_timestamp();
        self.is_fresh_at(ttl_seconds, now)
    }
}

/// The path of the cache file in `cache_dir`: `cache_dir`, the platform's separator unless
/// `cache_dir` is empty, ends in a separator or is a bare drive, then `usage_cache.json`
/// (see `joined`).
pub fn cache_path(cache_dir: &str) -> (res: String)
    ensures
        joined(cache_dir@, "usage_cache.json"@, res@),
{
    proof {
        reveal_strlit("usage_cache.json");
        lemma_long_name_is_plain("usage_cache.json"@);
    }
    join_path(cache_dir, "usage_cache.json")
}

pub open spec fn text_or(value: Option<String>, fallback: Seq<char>) -> Seq<char> {
    match value {
        Some(v) => v@,
        None => fallback,
    }
}

/// The key under which the report for `request` is cached: it names the bounds (`all` when
/// open), the time zone, whether pricing is offline, and the configured `ccusage` path
/// (`auto` when none).
pub open spec fn cache_key_text(request: NormalizedUsageRequest, settings: Settings) -> Seq<char> {
    "daily|since="@ + text_or(request.since, "all"@) + "|until="@ + text_or(request.until, "all"@)
        + "|tz="@ + request.timezone@ + "|offline="@ + (if settings.offline {
        "true"@
    } else {
        "false"@
    }) + "|path="@ + text_or(settings.ccusage_path, "auto"@)
}

/// Whether no character of `s` is `|`.
pub open spec fn no_bar(s: Seq<char>) -> bool {
    forall|i: int| 0 <= i < s.len() ==> s[i] != '|'
}

/// Two texts that each start with a `|`-free part followed by a part starting with `|`
/// split the same way when they are equal.
proof fn lemma_split_at_bar(x1: Seq<char>, y1: Seq<char>, x2: Seq<char>, y2: Seq<char>)
    requires
        no_bar(x1),
        no_bar(x2),
        y1.len() > 0 && y1[0] == '|',
        y2.len() > 0 && y2[0] == '|',
        x1 + y1 == x2 + y2,
    ensures
        x1 == x2,
        y1 == y2,
{
    if x1.len() < x2.len() {
        assert((x1 + y1)[x1.len() as int] == '|');
        assert((x2 + y2)[x1.len() as int] == x2[x1.len() as int]);
    } else if x2.len() < x1.len() {
        assert((x2 + y2)[x2.len() as int] == '|');
        assert((x1 + y1)[x2.len() as int] == x1[x2.len() as int]);
    }
    assert(x1 =~= (x1 + y1).take(x1.len() as int));
    assert(x2 =~= (x2 + y2).take(x2.len() as int));
    assert(y1 =~= (x1 + y1).skip(x1.len() as int));
    assert(y2 =~= (x2 + y2).skip(x2.len() as int));
}

/// Equal texts that start with the same text agree on what follows it.
proof fn lemma_drop_prefix(p: Seq<char>, a: Seq<char>, b: Seq<char>)
    requires
        p + a == p + b,
    ensures
        a == b,
{
    assert(a =~= (p + a).skip(p.len() as int));
    assert(b =~= (p + b).skip(p.len() as int));
}

/// The pricing mode as the key writes it.
pub open spec fn offline_text(settings: Settings) -> Seq<char> {
    if settings.offline {
        "true"@
    } else {
        "false"@
    }
}

/// The key's parts after the `since` bound, each starting at a `|`.
spec fn key_after_path(s: Settings) -> Seq<char> {
    "|path="@ + text_or(s.ccusage_path, "auto"@)
}

spec fn key_after_offline(s: Settings) -> Seq<char> {
    "|offline="@ + (offline_text(s) + key_after_path(s))
}

spec fn key_after_tz(r: NormalizedUsageRequest, s: Settings) -> Seq<char> {
    "|tz="@ + (r.timezone@ + key_after_offline(s))
}

spec fn key_after_until(r: NormalizedUsageRequest, s: Settings) -> Seq<char> {
    "|until="@ + (text_or(r.until, "all"@) + key_after_tz(r, s))
}

proof fn lemma_add_assoc(x: Seq<char>, y: Seq<char>, z: Seq<char>)
    ensures
        (x + y) + z == x + (y + z),
{
    assert((x + y) + z =~= x + (y + z));
}

proof fn lemma_key_shape(r: NormalizedUsageRequest, s: Settings)
    ensures
        cache_key_text(r, s) == "daily|since="@ + (text_or(r.since, "all"@) + key_after_until(r, s)),
{
    let pre = "daily|since="@;
    let a = text_or(r.since, "all"@);
    let u = "|until="@;
    let b = text_or(r.until, "all"@);
    let t = "|tz="@;
    let c = r.timezone@;
    let o = "|offline="@;
    let d = offline_text(s);
    let pa = "|path="@;
    let e = text_or(s.ccusage_path, "auto"@);
    let l1 = pre + a;
    let l2 = l1 + u;
    let l3 = l2 + b;
    let l4 = l3 + t;
    let l5 = l4 + c;
    let l6 = l5 + o;
    let l7 = l6 + d;
    let l8 = l7 + pa;
    assert(cache_key_text(r, s) == l8 + e);
    let x1 = pa + e;
    lemma_add_assoc(l7, pa, e);
    let x2 = d + x1;
    lemma_add_assoc(l6, d, x1);
    let x3 = o + x2;
    lemma_add_assoc(l5, o, x2);
    let x4 = c + x3;
    lemma_add_assoc(l4, c, x3);
    let x5 = t + x4;
    lemma_add_assoc(l3, t, x4);
    let x6 = b + x5;
    lemma_add_assoc(l2, b, x5);
    let x7 = u + x6;
    lemma_add_assoc(l1, u, x6);
    let x8 = a + x7;
    lemma_add_assoc(pre, a, x7);
    assert(x1 == key_after_path(s));
    assert(x3 == key_after_offline(s));
    assert(x5 == key_after_tz(r, s));
    assert(x7 == key_after_until(r, s));
}

proof fn lemma_key_literals()
    ensures
        "|until="@.len() > 0 && "|until="@[0] == '|',
        "|tz="@.len() > 0 && "|tz="@[0] == '|',
        "|offline="@.len() > 0 && "|offline="@[0] == '|',
        "|path="@.len() > 0 && "|path="@[0] == '|',
        no_bar("all"@),
        no_bar("true"@),
        no_bar("false"@),
        "true"@.len() != "false"@.len(),
{
    reveal_strlit("|until=");
    reveal_strlit("|tz=");
    reveal_strlit("|offline=");
    reveal_strlit("|path=");
    reveal_strlit("all");
    reveal_strlit("true");
    reveal_strlit("false");
}

/// The key distinguishes requests: two keys are equal only when they name the same bounds
/// (a missing bound reads `all`), the same time zone, the same pricing mode and the same
/// configured path (a missing one reads `auto`). This holds where no bound or time zone
/// holds a `|`, which dates written `YYYY-MM-DD` never do.
pub proof fn law_cache_key_determines_request(
    r1: NormalizedUsageRequest,
    s1: Settings,
    r2: NormalizedUsageRequest,
    s2: Settings,
)
    requires
        cache_key_text(r1, s1) == cache_key_text(r2, s2),
        r1.since matches Some(v) ==> no_bar(v@),
        r2.since matches Some(v) ==> no_bar(v@),
        r1.until matches Some(v) ==> no_bar(v@),
        r2.until matches Some(v) ==> no_bar(v@),
        no_bar(r1.timezone@),
        no_bar(r2.timezone@),
    ensures
        text_or(r1.since, "all"@) == text_or(r2.since, "all"@),
        text_or(r1.until, "all"@) == text_or(r2.until, "all"@),
        r1.timezone@ == r2.timezone@,
        s1.offline == s2.offline,
        text_or(s1.ccusage_path, "auto"@) == text_or(s2.ccusage_path, "auto"@),
{
    lemma_key_literals();
    lemma_key_shape(r1, s1);
    lemma_key_shape(r2, s2);
    let a1 = text_or(r1.since, "all"@);
    let a2 = text_or(r2.since, "all"@);
    let b1 = text_or(r1.until, "all"@);
    let b2 = text_or(r2.until, "all"@);
    assert(no_bar(a1) && no_bar(a2) && no_bar(b1) && no_bar(b2));
    assert(no_bar(offline_text(s1)) && no_bar(offline_text(s2)));
    lemma_drop_prefix("daily|since="@, a1 + key_after_until(r1, s1), a2 + key_after_until(r2, s2));
    lemma_split_at_bar(a1, key_after_until(r1, s1), a2, key_after_until(r2, s2));
    lemma_drop_prefix("|until="@, b1 + key_after_tz(r1, s1), b2 + key_after_tz(r2, s2));
    lemma_split_at_bar(b1, key_after_tz(r1, s1), b2, key_after_tz(r2, s2));
    lemma_drop_prefix("|tz="@, r1.timezone@ + key_after_offline(s1), r2.timezone@ + key_after_offline(s2));
    lemma_split_at_bar(r1.timezone@, key_after_offline(s1), r2.timezone@, key_after_offline(s2));
    lemma_drop_prefix("|offline="@, offline_text(s1) + key_after_path(s1), offline_text(s2) + key_after_path(s2));
    lemma_split_at_bar(offline_text(s1), key_after_path(s1), offline_text(s2), key_after_path(s2));
    lemma_drop_prefix("|path="@, text_or(s1.ccusage_path, "auto"@), text_or(s2.ccusage_path, "auto"@));
}

fn push_or(out: &mut String, value: &Option<String>, fallback: &str)
    ensures
        final(out)@ == old(out)@ + text_or(*value, fallback@),
{
    match value {
        Some(v) => push_text(out, v.as_str()),
        None => push_text(out, fallback),
    }
}

/// The key under which the report for `request` is cached (see `cache_key_text`).
pub fn cache_key(request: &NormalizedUsageRequest, settings: &Settings) -> (res: String)
    ensures
        res@ == cache_key_text(*request, *settings),
{
    let mut key = owned_text("daily|since=");
    push_or(&mut key, &request.since, "all");
    push_text(&mut key, "|until=");
    push_or(&mut key, &request.until, "all");
    push_text(&mut key, "|tz=");
    push_text(&mut key, request.timezone.as_str());
    push_text(&mut key, "|offline=");
    if settings.offline {
        push_text(&mut key, "true");
    } else {
        push_text(&mut key, "false");
    }
    push_text(&mut key, "|path=");
    push_or(&mut key, &settings.ccusage_path, "auto");
    key
}

// ---------------------------------------------------------------------------------------
// The in-memory cache
// ---------------------------------------------------------------------------------------

/// The entries as a map from key text to entry; a later entry under a key hides an
/// earlier one.
pub open spec fn entries_map(s: Seq<(String, CachedEntry)>) -> Map<Seq<char>, CachedEntry>
    decreases s.len(),
{
    if s.len() == 0 {
        Map::empty()
    } else {
        entries_map(s.drop_last()).insert(s.last().0@, s.last().1)
    }
}

pub open spec fn distinct_keys(s: Seq<(String, CachedEntry)>) -> bool {
    forall|i: int, j: int| 0 <= i < j < s.len() ==> (#[trigger] s[i]).0@ != (#[trigger] s[j]).0@
}

proof fn lemma_entries_map_lookup(s: Seq<(String, CachedEntry)>, k: Seq<char>)
    requires
        distinct_keys(s),
    ensures
        entries_map(s).contains_key(k) <==> exists|i: int| 0 <= i < s.len() && (#[trigger] s[i]).0@ == k,
        forall|i: int| 0 <= i < s.len() && (#[trigger] s[i]).0@ == k ==> entries_map(s)[k] == s[i].1,
    decreases s.len(),
{
    if s.len() > 0 {
        let p = s.drop_last();
        assert forall|i: int, j: int| 0 <= i < j < p.len() implies (#[trigger] p[i]).0@ != (#[trigger] p[j]).0@ by {
            assert(p[i] == s[i] && p[j] == s[j]);
        }
        lemma_entries_map_lookup(p, k);
        if entries_map(s).contains_key(k) && s.last().0@ != k {
            let i = choose|i: int| 0 <= i < p.len() && (#[trigger] p[i]).0@ == k;
            assert(s[i] == p[i]);
        }
        if exists|i: int| 0 <= i < s.len() && (#[trigger] s[i]).0@ == k {
            let i = choose|i: int| 0 <= i < s.len() && (#[trigger] s[i]).0@ == k;
            if i < s.len() - 1 {
                assert(p[i] == s[i]);
            }
        }
        assert forall|i: int| 0 <= i < s.len() && (#[trigger] s[i]).0@ == k implies entries_map(s)[k] == s[i].1 by {
            if i < s.len() - 1 {
                assert(p[i] == s[i]);
                assert(s[i].0@ != s[s.len() - 1].0@);
            }
        }
    }
}

proof fn lemma_entries_map_update(s: Seq<(String, CachedEntry)>, i: int, e: CachedEntry)
    requires
        distinct_keys(s),
        0 <= i < s.len(),
    ensures
        entries_map(s.update(i, (s[i].0, e))) == entries_map(s).insert(s[i].0@, e),
        distinct_keys(s.update(i, (s[i].0, e))),
{
    let t = s.update(i, (s[i].0, e));
    assert forall|a: int, b: int| 0 <= a < b < t.len() implies (#[trigger] t[a]).0@ != (#[trigger] t[b]).0@ by {
        assert(t[a].0 == s[a].0 && t[b].0 == s[b].0);
    }
    assert forall|k: Seq<char>| #[trigger] entries_map(t).contains_key(k) == entries_map(s).insert(s[i].0@, e).contains_key(k) by {
        lemma_entries_map_lookup(s, k);
        lemma_entries_map_lookup(t, k);
        if exists|j: int| 0 <= j < s.len() && (#[trigger] s[j]).0@ == k {
            let j = choose|j: int| 0 <= j < s.len() && (#[trigger] s[j]).0@ == k;
            assert(t[j].0@ == k);
        }
        if exists|j: int| 0 <= j < t.len() && (#[trigger] t[j]).0@ == k {
            let j = choose|j: int| 0 <= j < t.len() && (#[trigger] t[j]).0@ == k;
            assert(s[j].0@ == k);
        }
        assert(t[i].0@ == s[i].0@);
    }
    assert forall|k: Seq<char>| #[trigger] entries_map(t).contains_key(k) implies entries_map(t)[k] == entries_map(s).insert(s[i].0@, e)[k] by {
        lemma_entries_map_lookup(s, k);
        lemma_entries_map_lookup(t, k);
        let j = choose|j: int| 0 <= j < t.len() && (#[trigger] t[j]).0@ == k;
        assert(s[j].0@ == k);
        if j == i {
            assert(t[i].1 == e);
        } else {
            assert(t[j] == s[j]);
        }
    }
    assert(entries_map(t) =~= entries_map(s).insert(s[i].0@, e));
}

/// Usage reports kept in memory, by cache key.
pub struct UsageCache {
    entries: Vec<(String, CachedEntry)>,
}

impl UsageCache {
    #[verifier::type_invariant]
    spec fn keys_distinct(self) -> bool {
        distinct_keys(self.entries@)
    }

    /// The cached entries, by key.
    pub closed spec fn view(&self) -> Map<Seq<char>, CachedEntry> {
        entries_map(self.entries@)
    }

    /// An empty cache.
    pub fn new() -> (res: UsageCache)
        ensures
            res.view() == Map::<Seq<char>, CachedEntry>::empty(),
    {
        UsageCache { entries: Vec::new() }
    }

    /// The entry cached under `key`.
    pub fn get(&self, key: &str) -> (res: Option<&CachedEntry>)
        ensures
            match res {
                Some(e) => self.view().contains_key(key@) && self.view()[key@] == *e,
                None => !self.view().contains_key(key@),
            },
    {
        proof {
            use_type_invariant(self);
            lemma_entries_map_lookup(self.entries@, key@);
        }
        let mut i: usize = 0;
        while i < self.entries.len()
            invariant
                i <= self.entries@.len(),
                distinct_keys(self.entries@),
                forall|j: int| 0 <= j < i ==> (#[trigger] self.entries@[j]).0@ != key@,
                entries_map(self.entries@).contains_key(key@) <==> exists|j: int|
                    0 <= j < self.entries@.len() && (#[trigger] self.entries@[j]).0@ == key@,
                forall|j: int|
                    0 <= j < self.entries@.len() && (#[trigger] self.entries@[j]).0@ == key@ ==> entries_map(
                        self.entries@,
                    )[key@] == self.entries@[j].1,
            decreases self.entries@.len() - i,
        {
            if text_eq(self.entries[i].0.as_str(), key) {
                return Some(&self.entries[i].1);
            }
            i = i + 1;
        }
        None
    }

    /// Caches `entry` under `key`, in place of any entry there.
    pub fn insert(&mut self, key: String, entry: CachedEntry)
        ensures
            final(self).view() == old(self).view().insert(key@, entry),
    {
        proof {
            use_type_invariant(&*self);
        }
        let ghost s = self.entries@;
        let mut i: usize = 0;
        while i < self.entries.len()
            invariant
                i <= self.entries@.len(),
                self.entries@ == s,
                s == old(self).entries@,
                distinct_keys(s),
                forall|j: int| 0 <= j < i ==> (#[trigger] s[j]).0@ != key@,
            decreases self.entries@.len() - i,
        {
            if text_eq(self.entries[i].0.as_str(), key.as_str()) {
                proof {
                    lemma_entries_map_update(s, i as int, entry);
                }
                let mut entries: Vec<(String, CachedEntry)> = Vec::new();
                std::mem::swap(&mut entries, &mut self.entries);
                let k = entries[i].0.clone();
                entries.set(i, (k, entry));
                assert(entries@ == s.update(i as int, (s[i as int].0, entry)));
                assert(s[i as int].0@ == key@);
                self.entries = entries;
                assert(self.view() == entries_map(s).insert(key@, entry));
                return;
            }
            i = i + 1;
        }
        let mut entries: Vec<(String, CachedEntry)> = Vec::new();
        std::mem::swap(&mut entries, &mut self.entries);
        entries.push((key, entry));
        proof {
            let t = entries@;
            assert(t.drop_last() == s);
            assert forall|a: int, b: int| 0 <= a < b < t.len() implies (#[trigger] t[a]).0@ != (#[trigger] t[b]).0@ by {
                if b < s.len() {
                    assert(t[a] == s[a] && t[b] == s[b]);
                } else {
                    assert(t[a] == s[a]);
                }
            }
        }
        self.entries = entries;
    }

    /// Empties the cache.
    pub fn clear(&mut self)
        ensures
            final(self).view() == Map::<Seq<char>, CachedEntry>::empty(),
    {
        self.entries = Vec::new();
    }
}

/// What `insert` caches under a key, `get` gives back under that key; every other key
/// keeps what it had.
pub proof fn law_get_after_insert(
    before: UsageCache,
    after: UsageCache,
    key: Seq<char>,
    entry: CachedEntry,
    other: Seq<char>,
)
    requires
        after.view() == before.view().insert(key, entry),
    ensures
        after.view().contains_key(key),
        after.view()[key] == entry,
        other != key ==> after.view().contains_key(other) == before.view().contains_key(other),
        other != key && before.view().contains_key(other) ==> after.view()[other] == before.view()[other],
{
}

/// After `clear`, `get` finds nothing under any key.
pub proof fn law_nothing_after_clear(cache: UsageCache, key: Seq<char>)
    requires
        cache.view() == Map::<Seq<char>, CachedEntry>::empty(),
    ensures
        !cache.view().contains_key(key),
{
}

/// A zero lifetime is never fresh; an entry fresh now stays fresh under a longer lifetime
/// and was fresh at every moment since it was made.
pub proof fn law_freshness(cached_at: int, ttl: u64, longer: u64, now: int, earlier: int)
    requires
        fresh_at(cached_at, ttl, now),
        ttl <= longer <= i64::MAX,
        cached_at <= earlier <= now,
    ensures
        ttl != 0,
        fresh_at(cached_at, longer, now),
        fresh_at(cached_at, ttl, earlier),
{
}

} // verus!
