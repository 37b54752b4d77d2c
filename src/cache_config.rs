//! What the session remembers across runs: the last transcript, the last
//! profile, and the tier last used with each profile.

use crate::name_map::NameMap;
use crate::profiles_config::ModelType;
use vstd::prelude::*;

verus! {

/// The persisted session cache.
#[derive(Debug)]
pub struct CacheConfig {
    pub last_history_file: Option<String>,
    pub last_profile_name: Option<String>,
    pub profile_models: Option<NameMap<ModelType>>,
}

/// The tiers remembered per profile; none when the cache holds no table.
pub open spec fn remembered_tiers(c: &CacheConfig) -> Seq<(Seq<char>, ModelType)> {
    match c.profile_models {
        Some(m) => m@,
        None => Seq::empty(),
    }
}

impl CacheConfig {
    pub fn new(
        last_history_file: Option<String>,
        last_profile_name: Option<String>,
        profile_models: Option<NameMap<ModelType>>,
    ) -> (r: Self)
        ensures
            r.last_history_file == last_history_file,
            r.last_profile_name == last_profile_name,
            r.profile_models == profile_models,
    {
        CacheConfig { last_history_file, last_profile_name, profile_models }
    }

    /// A cache that remembers nothing.
    pub fn empty() -> (r: Self)
        ensures
            r.last_history_file is None,
            r.last_profile_name is None,
            r.profile_models is None,
    {
        Self::new(None, None, None)
    }
}

impl Default for CacheConfig {
    fn default() -> (r: Self)
        ensures
            r.last_history_file is None,
            r.last_profile_name is None,
            r.profile_models is None,
    {
        Self::empty()
    }
}

} // verus!
