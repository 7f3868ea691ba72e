//! The application's state.
use vstd::prelude::*;
use crate::cache::UsageCache;
use crate::settings::Settings;

verus! {

/// Where the settings and cache live, the settings, and the reports cached in memory.
pub struct AppState {
    pub config_dir: String,
    pub cache_dir: String,
    pub settings: Settings,
    pub cache: UsageCache,
}

impl AppState {
    /// The state at start-up: the given directories and settings, and an empty cache.
    pub fn new(config_dir: String, cache_dir: String, settings: Settings) -> (res: AppState)
        ensures
            res.config_dir == config_dir,
            res.cache_dir == cache_dir,
            res.settings == settings,
            res.cache.view() == Map::<Seq<char>, crate::cache::CachedEntry>::empty(),
    {
        AppState { config_dir, cache_dir, settings, cache: UsageCache::new() }
    }
}

} // verus!
