//! The session state: the active profile and model, the tiers remembered per
//! profile, and the transitions that switch between them.

use crate::cache_config::{remembered_tiers, CacheConfig};
use crate::name_map::{lemma_stored, lemma_stored_twice, lookup, stored, NameMap};
use crate::profiles_config::{
    catalog_ok, first_with_tier, lemma_first_with_tier, lemma_first_with_tier_bounds, tier_model, Model, ModelType, ModelView, Profile, ProfileView,
};
use crate::text::{lower_of, lowercase, opt_text, same_text};
use crate::user_config::{resolved_profile, UserConfig};
use vstd::prelude::*;

verus! {

/// The parts of the session that switching profile or model reads or changes.
pub struct SessionView {
    pub profile: ProfileView,
    pub model: ModelView,
    pub last_profile: Option<Seq<char>>,
    pub remembered: Seq<(Seq<char>, ModelType)>,
}

pub open spec fn catalog_view(ps: Seq<Profile>) -> Seq<ProfileView> {
    ps.map_values(|p: Profile| p@)
}

/// The tier that profile `p` starts on: the one remembered for it, else its
/// first model's.
pub open spec fn start_tier(p: ProfileView, remembered: Seq<(Seq<char>, ModelType)>) -> ModelType {
    match lookup(remembered, p.0) {
        Some(t) => t,
        None => p.2[0].2,
    }
}

/// The session after switching to profile `p`.
pub open spec fn profile_switched(s: SessionView, p: ProfileView) -> SessionView {
    let m = tier_model(p, start_tier(p, s.remembered));
    SessionView {
        profile: p,
        model: m,
        last_profile: Some(p.0),
        remembered: stored(s.remembered, p.0, m.2),
    }
}

/// Switching to the same profile twice in a row: the second switch leaves
/// the session exactly as the first one left it.
pub proof fn lemma_switch_profile_twice(s: SessionView, p: ProfileView)
    requires
        p.2.len() > 0,
    ensures
        profile_switched(profile_switched(s, p), p) == profile_switched(s, p),
{
    let s1 = profile_switched(s, p);
    let m1 = s1.model;
    lemma_stored(s.remembered, p.0, m1.2);
    lemma_stored_twice(s.remembered, p.0, m1.2);
    lemma_first_with_tier_bounds(p.2, start_tier(p, s.remembered));
    match first_with_tier(p.2, start_tier(p, s.remembered)) {
        Some(i) => {},
        None => {
            lemma_first_with_tier(p.2, p.2[0].2, 0);
        },
    }
    assert(tier_model(p, m1.2) == m1);
}

/// The session after switching to model `m` of the active profile.
pub open spec fn model_switched(s: SessionView, m: ModelView) -> SessionView {
    SessionView {
        profile: s.profile,
        model: m,
        last_profile: s.last_profile,
        remembered: stored(s.remembered, s.profile.0, m.2),
    }
}

/// The index of the first profile of `ps` at or after `from` whose name
/// matches `name` regardless of letter case.
pub open spec fn find_profile_from(ps: Seq<ProfileView>, name: Seq<char>, from: int) -> Option<
    int,
>
    decreases ps.len() - from,
{
    if from < 0 || from >= ps.len() {
        None
    } else if lower_of(ps[from].0) == lower_of(name) {
        Some(from)
    } else {
        find_profile_from(ps, name, from + 1)
    }
}

proof fn lemma_find_profile_at(ps: Seq<ProfileView>, name: Seq<char>, from: int, i: int)
    requires
        0 <= from <= i < ps.len(),
        lower_of(ps[i].0) == lower_of(name),
        forall|j: int| from <= j < i ==> lower_of(ps[j].0) != lower_of(name),
    ensures
        find_profile_from(ps, name, from) == Some(i),
    decreases i - from,
{
    if from < i {
        lemma_find_profile_at(ps, name, from + 1, i);
    }
}

proof fn lemma_find_profile_none(ps: Seq<ProfileView>, name: Seq<char>, from: int)
    requires
        0 <= from,
        forall|j: int| from <= j < ps.len() ==> lower_of(ps[j].0) != lower_of(name),
    ensures
        find_profile_from(ps, name, from) is None,
    decreases ps.len() - from,
{
    if from < ps.len() {
        lemma_find_profile_none(ps, name, from + 1);
    }
}

pub proof fn lemma_find_profile_bounds(ps: Seq<ProfileView>, name: Seq<char>, from: int)
    requires
        0 <= from,
    ensures
        find_profile_from(ps, name, from) is Some ==> from <= find_profile_from(ps, name, from)->0
            < ps.len(),
    decreases ps.len() - from,
{
    if from < ps.len() && lower_of(ps[from].0) != lower_of(name) {
        lemma_find_profile_bounds(ps, name, from + 1);
    }
}

/// The application's configuration and session state.
#[derive(Debug)]
pub struct AppConfig {
    pub cache_config: CacheConfig,
    pub user_config: UserConfig,
    pub data_dir: String,
    pub prompt_dir: String,
    pub current_model: Model,
    pub current_profile: Profile,
}

impl AppConfig {
    /// The active profile and model, the last profile and the remembered tiers.
    pub open spec fn session(&self) -> SessionView {
        SessionView {
            profile: self.current_profile@,
            model: self.current_model@,
            last_profile: opt_text(self.cache_config.last_profile_name),
            remembered: remembered_tiers(&self.cache_config),
        }
    }

    /// Whether `other` differs from `self` at most in the session.
    pub open spec fn same_surroundings(&self, other: &AppConfig) -> bool {
        &&& self.user_config == other.user_config
        &&& self.data_dir == other.data_dir
        &&& self.prompt_dir == other.prompt_dir
        &&& self.cache_config.last_history_file == other.cache_config.last_history_file
    }

    pub open spec fn catalog(&self) -> Seq<ProfileView> {
        catalog_view(self.user_config.profiles_config.profiles@)
    }

    /// The session invariant: a valid catalog, and an active model that the
    /// active profile offers, whose tier is the one remembered for it.
    pub open spec fn wf(&self) -> bool {
        &&& catalog_ok(self.user_config.profiles_config.profiles@)
        &&& self.current_profile@.2.len() > 0
        &&& exists|i: int|
            0 <= i < self.current_profile@.2.len() && self.current_profile@.2[i]
                == self.current_model@
        &&& lookup(self.session().remembered, self.current_profile@.0) == Some(
            self.current_model.model_type,
        )
    }

    /// Builds the session from what was loaded: the cache and the user's
    /// configuration. Fails, with the validation error, on an invalid
    /// catalog. Otherwise the session starts on the last profile (resolved
    /// as `find_profile` does; the catalog's first when there is none) at
    /// its remembered tier, or at its first model's.
    pub fn load_config(
        cache_config: CacheConfig,
        user_config: UserConfig,
        data_dir: String,
        prompt_dir: String,
    ) -> (r: Result<AppConfig, String>)
        ensures
            r is Ok <==> catalog_ok(user_config.profiles_config.profiles@),
            r is Ok ==> {
                let c = r->Ok_0;
                let ps = user_config.profiles_config.profiles@;
                let name = match cache_config.last_profile_name {
                    Some(n) => n@,
                    None => ps[0].name@,
                };
                let p = resolved_profile(ps, name)@;
                let s0 = SessionView {
                    profile: p,
                    model: p.2[0],
                    last_profile: opt_text(cache_config.last_profile_name),
                    remembered: remembered_tiers(&cache_config),
                };
                &&& c.wf()
                &&& c.session() == profile_switched(s0, p)
                &&& c.user_config == user_config
                &&& c.data_dir == data_dir
                &&& c.prompt_dir == prompt_dir
                &&& c.cache_config.last_history_file == cache_config.last_history_file
            },
    {
        match user_config.profiles_config.validate() {
            Ok(()) => {},
            Err(e) => {
                return Err(e);
            },
        }
        let ghost ps = user_config.profiles_config.profiles@;
        let previous_profile_name = match &cache_config.last_profile_name {
            Some(n) => n.clone(),
            None => user_config.profiles_config.profiles[0].name.clone(),
        };
        let initial_profile = user_config.find_profile(previous_profile_name.as_str());
        proof {
            crate::user_config::lemma_first_named_bounds(ps, previous_profile_name@);
            let idx = match crate::user_config::first_named(ps, previous_profile_name@) {
                Some(i) => i,
                None => 0,
            };
            assert(crate::profiles_config::entry_ok(ps, idx));
        }
        let mut config = AppConfig {
            cache_config,
            user_config,
            data_dir,
            prompt_dir,
            current_model: initial_profile.models[0].duplicate(),
            current_profile: initial_profile.duplicate(),
        };
        config.switch_profile(&initial_profile);
        Ok(config)
    }

    /// The transcript to start with: the one given, else the last one used.
    pub fn history_path(&self, given: Option<String>) -> (r: Option<String>)
        ensures
            given is Some ==> r == given,
            given is None ==> opt_text(r) == opt_text(self.cache_config.last_history_file),
    {
        match given {
            Some(p) => Some(p),
            None => match &self.cache_config.last_history_file {
                Some(p) => Some(p.clone()),
                None => None,
            },
        }
    }

    /// Records `history_file` as the last transcript used.
    pub fn update_last_history_file(&mut self, history_file: String)
        ensures
            opt_text(final(self).cache_config.last_history_file) == Some(history_file@),
            final(self).session() == old(self).session(),
            final(self).user_config == old(self).user_config,
            final(self).data_dir == old(self).data_dir,
            final(self).prompt_dir == old(self).prompt_dir,
            old(self).wf() ==> final(self).wf(),
    {
        self.cache_config.last_history_file = Some(history_file);
    }

    /// The profile last used: the one the cache names (resolved as
    /// `find_profile` does), else the catalog's first, which the cache then
    /// records as the last profile.
    pub fn get_profile(&mut self) -> (r: Profile)
        requires
            old(self).user_config.profiles_config.profiles@.len() > 0,
        ensures
            match old(self).cache_config.last_profile_name {
                Some(n) => r@ == resolved_profile(
                    old(self).user_config.profiles_config.profiles@,
                    n@,
                )@ && *final(self) == *old(self),
                None => {
                    &&& r@ == old(self).user_config.profiles_config.profiles@[0]@
                    &&& opt_text(final(self).cache_config.last_profile_name) == Some(r.name@)
                    &&& final(self).current_profile == old(self).current_profile
                    &&& final(self).current_model == old(self).current_model
                    &&& final(self).cache_config.profile_models == old(
                        self,
                    ).cache_config.profile_models
                    &&& final(self).same_surroundings(old(self))
                },
            },
    {
        match &self.cache_config.last_profile_name {
            Some(name) => {
                return self.user_config.find_profile(name.as_str());
            },
            None => {},
        }
        let profile = self.user_config.profiles_config.profiles[0].duplicate();
        self.cache_config.last_profile_name = Some(profile.name.clone());
        profile
    }

    /// The first profile whose name matches `profile_name` regardless of
    /// letter case, if any.
    pub fn maybe_profile(&self, profile_name: &str) -> (r: Option<Profile>)
        ensures
            r is Some <==> find_profile_from(self.catalog(), profile_name@, 0) is Some,
            r is Some ==> r->0@ == self.catalog()[find_profile_from(
                self.catalog(),
                profile_name@,
                0,
            )->0],
    {
        let wanted = lowercase(profile_name);
        let ghost ps = self.catalog();
        let mut k: usize = 0;
        while k < self.user_config.profiles_config.profiles.len()
            invariant
                k <= ps.len(),
                ps == self.catalog(),
                ps.len() == self.user_config.profiles_config.profiles@.len(),
                wanted@ == lower_of(profile_name@),
                forall|j: int| 0 <= j < k ==> lower_of(ps[j].0) != lower_of(profile_name@),
            decreases self.user_config.profiles_config.profiles.len() - k,
        {
            let name = lowercase(self.user_config.profiles_config.profiles[k].name.as_str());
            if same_text(name.as_str(), wanted.as_str()) {
                proof {
                    lemma_find_profile_at(ps, profile_name@, 0, k as int);
                }
                return Some(self.user_config.profiles_config.profiles[k].duplicate());
            }
            k = k + 1;
        }
        proof {
            lemma_find_profile_none(ps, profile_name@, 0);
        }
        None
    }

    /// Makes `profile` the active one, at the tier remembered for it or else
    /// at its first model's, and remembers that tier for it.
    pub fn switch_profile(&mut self, profile: &Profile)
        requires
            profile@.2.len() > 0,
        ensures
            final(self).session() == profile_switched(old(self).session(), profile@),
            final(self).same_surroundings(old(self)),
            catalog_ok(final(self).user_config.profiles_config.profiles@) ==> final(self).wf(),
    {
        self.current_profile = profile.duplicate();
        self.cache_config.last_profile_name = Some(profile.name.clone());
        let mut profile_models = match self.cache_config.profile_models.take() {
            Some(m) => m,
            None => NameMap::new(),
        };
        let tier = match profile_models.get(profile.name.as_str()) {
            Some(t) => *t,
            None => profile.models[0].model_type,
        };
        self.current_model = profile.get_model(&tier).duplicate();
        profile_models.insert(profile.name.clone(), self.current_model.model_type);
        self.cache_config.profile_models = Some(profile_models);
        proof {
            let ms = profile@.2;
            match first_with_tier(ms, tier) {
                Some(i) => {
                    assert(0 <= i < ms.len() && ms[i] == self.current_model@) by {
                        crate::profiles_config::lemma_first_with_tier_bounds(ms, tier);
                    }
                },
                None => {
                    assert(ms[0] == self.current_model@);
                },
            }
        }
    }

    /// Makes `model` the active model and remembers its tier for the active
    /// profile.
    pub fn switch_model(&mut self, model: &Model)
        ensures
            final(self).session() == model_switched(old(self).session(), model@),
            final(self).same_surroundings(old(self)),
    {
        self.current_model = model.duplicate();
        let mut profile_models = match self.cache_config.profile_models.take() {
            Some(m) => m,
            None => NameMap::new(),
        };
        profile_models.insert(self.current_profile.name.clone(), model.model_type);
        self.cache_config.profile_models = Some(profile_models);
    }
}

} // verus!
