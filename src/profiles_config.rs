//! The catalog of model profiles: named providers, each offering models
//! tagged by a speed/quality tier.

use crate::text::{copy_opt_text, lower_of, lowercase, opt_text, same_text};
use vstd::prelude::*;

verus! {

/// A coarse speed/quality selector within a profile.
#[derive(Clone, Copy, Debug, PartialEq, Eq, Structural)]
pub enum ModelType {
    Fast,
    Balanced,
    Deep,
}

impl View for ModelType {
    type V = ModelType;

    open spec fn view(&self) -> ModelType {
        *self
    }
}

pub open spec fn tier_name(t: ModelType) -> Seq<char> {
    match t {
        ModelType::Fast => "fast"@,
        ModelType::Balanced => "balanced"@,
        ModelType::Deep => "deep"@,
    }
}

/// The tier that a lower-case name denotes, if any.
pub open spec fn tier_named(name: Seq<char>) -> Option<ModelType> {
    if name == "fast"@ {
        Some(ModelType::Fast)
    } else if name == "balanced"@ {
        Some(ModelType::Balanced)
    } else if name == "deep"@ {
        Some(ModelType::Deep)
    } else {
        None
    }
}

impl ModelType {
    /// The tier's name, as configuration files and messages spell it.
    pub fn as_str(&self) -> (r: &'static str)
        ensures
            r@ == tier_name(*self),
    {
        match self {
            ModelType::Fast => "fast",
            ModelType::Balanced => "balanced",
            ModelType::Deep => "deep",
        }
    }

    /// The tier named by `model_type`, in any letter case.
    pub fn from_str(model_type: &str) -> (r: Result<ModelType, String>)
        ensures
            r is Ok <==> tier_named(lower_of(model_type@)) is Some,
            r is Ok ==> r->Ok_0 == tier_named(lower_of(model_type@))->0,
            r is Err ==> r->Err_0@ == "Invalid model type: "@ + model_type@,
    {
        let lower = lowercase(model_type);
        if same_text(lower.as_str(), "fast") {
            Ok(ModelType::Fast)
        } else if same_text(lower.as_str(), "balanced") {
            Ok(ModelType::Balanced)
        } else if same_text(lower.as_str(), "deep") {
            Ok(ModelType::Deep)
        } else {
            Err(String::from_str("Invalid model type: ").concat(model_type))
        }
    }
}

/// The tier that a model entry without one gets.
pub fn default_model_type() -> (r: ModelType)
    ensures
        r == ModelType::Balanced,
{
    ModelType::Balanced
}

/// What a model entry holds: identifier, description, tier.
pub type ModelView = (Seq<char>, Option<Seq<char>>, ModelType);

/// What a profile holds: name, provider, models.
pub type ProfileView = (Seq<char>, Seq<char>, Seq<ModelView>);

/// One model a profile offers.
#[derive(Clone, Debug)]
pub struct Model {
    pub model: String,
    pub description: Option<String>,
    pub model_type: ModelType,
}

impl View for Model {
    type V = (Seq<char>, Option<Seq<char>>, ModelType);

    open spec fn view(&self) -> (Seq<char>, Option<Seq<char>>, ModelType) {
        (self.model@, opt_text(self.description), self.model_type)
    }
}

impl Model {
    /// A copy of this model.
    pub fn duplicate(&self) -> (r: Model)
        ensures
            r@ == self@,
    {
        Model {
            model: self.model.clone(),
            description: copy_opt_text(&self.description),
            model_type: self.model_type,
        }
    }
}

/// A named provider configuration and the models it offers.
#[derive(Clone, Debug)]
pub struct Profile {
    pub name: String,
    pub provider: String,
    pub models: Vec<Model>,
}

pub open spec fn models_view(ms: Seq<Model>) -> Seq<(Seq<char>, Option<Seq<char>>, ModelType)> {
    ms.map_values(|m: Model| m@)
}

pub open spec fn tiers_of(ms: Seq<Model>) -> Seq<ModelType> {
    ms.map_values(|m: Model| m.model_type)
}

impl View for Profile {
    type V = (Seq<char>, Seq<char>, Seq<(Seq<char>, Option<Seq<char>>, ModelType)>);

    open spec fn view(&self) -> (
        Seq<char>,
        Seq<char>,
        Seq<(Seq<char>, Option<Seq<char>>, ModelType)>,
    ) {
        (self.name@, self.provider@, models_view(self.models@))
    }
}

/// The index of the first model of `ms` at or after `from` with tier `t`.
pub open spec fn tier_from(ms: Seq<ModelView>, t: ModelType, from: int) -> Option<int>
    decreases ms.len() - from,
{
    if from < 0 || from >= ms.len() {
        None
    } else if ms[from].2 == t {
        Some(from)
    } else {
        tier_from(ms, t, from + 1)
    }
}

/// The index of the first model of `ms` with tier `t`, if any.
pub open spec fn first_with_tier(ms: Seq<ModelView>, t: ModelType) -> Option<int> {
    tier_from(ms, t, 0)
}

/// The model of profile `p` that tier `t` selects: the first of that tier,
/// else the profile's first model.
pub open spec fn tier_model(p: ProfileView, t: ModelType) -> ModelView {
    match first_with_tier(p.2, t) {
        Some(i) => p.2[i],
        None => p.2[0],
    }
}

/// Whether no two of `ts` are equal.
pub open spec fn all_distinct(ts: Seq<ModelType>) -> bool {
    forall|i: int, j: int| 0 <= i < j < ts.len() ==> ts[i] != ts[j]
}

/// The first index `j` of `ts` whose tier occurred before it.
pub open spec fn is_first_repeat(ts: Seq<ModelType>, j: int) -> bool {
    &&& 0 <= j < ts.len()
    &&& exists|i: int| 0 <= i < j && ts[i] == ts[j]
    &&& forall|k: int, i: int| 0 <= i < k < j ==> ts[i] != ts[k]
}

pub open spec fn no_models_message(name: Seq<char>) -> Seq<char> {
    "Profile "@ + name + " has no models"@
}

pub open spec fn duplicate_tier_message(name: Seq<char>, t: ModelType) -> Seq<char> {
    "Profile "@ + name + " has a duplicate model type: "@ + tier_name(t)
}

/// A profile is well-formed when it offers at least one model and no two of
/// its models share a tier.
pub open spec fn profile_ok(p: Profile) -> bool {
    p.models@.len() > 0 && all_distinct(tiers_of(p.models@))
}

proof fn lemma_tier_from(ms: Seq<ModelView>, t: ModelType, from: int)
    requires
        0 <= from,
    ensures
        tier_from(ms, t, from) is None ==> forall|j: int| from <= j < ms.len() ==> ms[j].2 != t,
        tier_from(ms, t, from) is Some ==> {
            let i = tier_from(ms, t, from)->0;
            from <= i < ms.len() && ms[i].2 == t && forall|j: int| from <= j < i ==> ms[j].2 != t
        },
    decreases ms.len() - from,
{
    if from < ms.len() && ms[from].2 != t {
        lemma_tier_from(ms, t, from + 1);
    }
}

/// `first_with_tier` gives the first model of the tier, or none when no
/// model has it.
pub proof fn lemma_first_with_tier_bounds(ms: Seq<ModelView>, t: ModelType)
    ensures
        first_with_tier(ms, t) is None ==> forall|j: int| 0 <= j < ms.len() ==> ms[j].2 != t,
        first_with_tier(ms, t) is Some ==> {
            let i = first_with_tier(ms, t)->0;
            0 <= i < ms.len() && ms[i].2 == t && forall|j: int| 0 <= j < i ==> ms[j].2 != t
        },
{
    lemma_tier_from(ms, t, 0);
}

proof fn lemma_tier_at(ms: Seq<ModelView>, t: ModelType, from: int, i: int)
    requires
        0 <= from <= i < ms.len(),
        ms[i].2 == t,
        forall|j: int| from <= j < i ==> ms[j].2 != t,
    ensures
        tier_from(ms, t, from) == Some(i),
    decreases i - from,
{
    if from < i {
        lemma_tier_at(ms, t, from + 1, i);
    }
}

pub proof fn lemma_first_with_tier(ms: Seq<ModelView>, t: ModelType, i: int)
    requires
        0 <= i < ms.len(),
        ms[i].2 == t,
        forall|j: int| 0 <= j < i ==> ms[j].2 != t,
    ensures
        first_with_tier(ms, t) == Some(i),
{
    lemma_tier_at(ms, t, 0, i);
}

impl Profile {
    /// A copy of this profile.
    pub fn duplicate(&self) -> (r: Profile)
        ensures
            r@ == self@,
            r.models@.len() == self.models@.len(),
            forall|i: int| 0 <= i < self.models@.len() ==> r.models@[i]@ == self.models@[i]@,
    {
        let mut models: Vec<Model> = Vec::new();
        let mut k: usize = 0;
        while k < self.models.len()
            invariant
                k <= self.models@.len(),
                models@.len() == k,
                forall|i: int| 0 <= i < k ==> models@[i]@ == self.models@[i]@,
            decreases self.models.len() - k,
        {
            models.push(self.models[k].duplicate());
            k = k + 1;
        }
        assert(models_view(models@) =~= models_view(self.models@));
        Profile { name: self.name.clone(), provider: self.provider.clone(), models }
    }

    /// The first model of tier `model_type`, if this profile offers one.
    pub fn maybe_model(&self, model_type: &ModelType) -> (r: Option<Model>)
        ensures
            r is Some <==> first_with_tier(models_view(self.models@), *model_type) is Some,
            r is Some ==> r->0@ == self.models@[first_with_tier(
                models_view(self.models@),
                *model_type,
            )->0]@,
    {
        let mut k: usize = 0;
        while k < self.models.len()
            invariant
                k <= self.models@.len(),
                forall|j: int| 0 <= j < k ==> models_view(self.models@)[j].2 != *model_type,
            decreases self.models.len() - k,
        {
            if self.models[k].model_type == *model_type {
                proof {
                    lemma_first_with_tier(models_view(self.models@), *model_type, k as int);
                }
                return Some(self.models[k].duplicate());
            }
            k = k + 1;
        }
        proof {
            lemma_first_with_tier_bounds(models_view(self.models@), *model_type);
        }
        None
    }

    /// The first model of tier `model_type`, or the profile's first model
    /// when it offers none of that tier.
    pub fn get_model(&self, model_type: &ModelType) -> (r: &Model)
        requires
            self.models@.len() > 0,
        ensures
            first_with_tier(models_view(self.models@), *model_type) is Some ==> *r == self.models@[first_with_tier(
                models_view(self.models@),
                *model_type,
            )->0],
            first_with_tier(models_view(self.models@), *model_type) is None ==> *r == self.models@[0],
            r@ == tier_model(self@, *model_type),
    {
        let mut k: usize = 0;
        while k < self.models.len()
            invariant
                k <= self.models@.len(),
                forall|j: int| 0 <= j < k ==> models_view(self.models@)[j].2 != *model_type,
            decreases self.models.len() - k,
        {
            if self.models[k].model_type == *model_type {
                proof {
                    lemma_first_with_tier(models_view(self.models@), *model_type, k as int);
                }
                return &self.models[k];
            }
            k = k + 1;
        }
        proof {
            lemma_first_with_tier_bounds(models_view(self.models@), *model_type);
        }
        &self.models[0]
    }

    /// Checks that the profile offers a model and that no two of its models
    /// share a tier; the error names `profile_name` and, for a repeat, the
    /// first tier met twice.
    pub fn validate(&self, profile_name: &String) -> (r: Result<(), String>)
        ensures
            r is Ok <==> profile_ok(*self),
            r is Err && self.models@.len() == 0 ==> r->Err_0@ == no_models_message(
                profile_name@,
            ),
            r is Err && self.models@.len() > 0 ==> exists|j: int|
                is_first_repeat(tiers_of(self.models@), j) && r->Err_0@ == duplicate_tier_message(
                    profile_name@,
                    tiers_of(self.models@)[j],
                ),
    {
        if self.models.len() == 0 {
            let msg = String::from_str("Profile ").concat(profile_name.as_str()).concat(
                " has no models",
            );
            return Err(msg);
        }
        let ghost ts = tiers_of(self.models@);
        let mut seen: Vec<ModelType> = Vec::new();
        let mut k: usize = 0;
        while k < self.models.len()
            invariant
                k <= self.models@.len(),
                ts == tiers_of(self.models@),
                seen@ == ts.subrange(0, k as int),
                forall|a: int, b: int| 0 <= a < b < k ==> ts[a] != ts[b],
            decreases self.models.len() - k,
        {
            let t = self.models[k].model_type;
            let mut i: usize = 0;
            while i < seen.len()
                invariant
                    i <= seen@.len() == k,
                    k < self.models@.len(),
                    ts == tiers_of(self.models@),
                    forall|a: int, b: int| 0 <= a < b < k ==> ts[a] != ts[b],
                    seen@ == ts.subrange(0, k as int),
                    t == ts[k as int],
                    forall|a: int| 0 <= a < i ==> seen@[a] != t,
                decreases seen.len() - i,
            {
                if seen[i] == t {
                    assert(ts[i as int] == ts[k as int]);
                    assert(is_first_repeat(ts, k as int));
                    let msg = String::from_str("Profile ").concat(profile_name.as_str()).concat(
                        " has a duplicate model type: ",
                    ).concat(t.as_str());
                    return Err(msg);
                }
                i = i + 1;
            }
            assert(forall|a: int| 0 <= a < k ==> seen@[a] == ts[a]);
            seen.push(t);
            assert(seen@ =~= ts.subrange(0, k + 1));
            k = k + 1;
        }
        Ok(())
    }
}

/// The catalog of profiles.
#[derive(Clone, Debug)]
pub struct ProfilesConfig {
    pub profiles: Vec<Profile>,
}

/// Whether profile `k` of `ps` shares its name with an earlier one.
pub open spec fn name_repeated(ps: Seq<Profile>, k: int) -> bool {
    exists|i: int| 0 <= i < k && ps[i].name@ == ps[k].name@
}

/// Whether profile `k` of `ps` passes validation.
pub open spec fn entry_ok(ps: Seq<Profile>, k: int) -> bool {
    !name_repeated(ps, k) && profile_ok(ps[k])
}

/// A valid catalog has at least one profile, unique names, and only
/// well-formed profiles.
pub open spec fn catalog_ok(ps: Seq<Profile>) -> bool {
    ps.len() > 0 && forall|k: int| 0 <= k < ps.len() ==> entry_ok(ps, k)
}

/// Whether `e` is the error that `Profile::validate` reports for `p`.
pub open spec fn is_profile_error(p: Profile, e: Seq<char>) -> bool {
    if p.models@.len() == 0 {
        e == no_models_message(p.name@)
    } else {
        exists|j: int|
            is_first_repeat(tiers_of(p.models@), j) && e == duplicate_tier_message(
                p.name@,
                tiers_of(p.models@)[j],
            )
    }
}

pub open spec fn duplicate_name_message(name: Seq<char>) -> Seq<char> {
    "Profile name "@ + name + " is not unique"@
}

/// Whether `e` is the error for the first faulty profile `k` of `ps`.
pub open spec fn is_catalog_error_at(ps: Seq<Profile>, k: int, e: Seq<char>) -> bool {
    &&& 0 <= k < ps.len()
    &&& forall|j: int| 0 <= j < k ==> entry_ok(ps, j)
    &&& !entry_ok(ps, k)
    &&& if name_repeated(ps, k) {
        e == duplicate_name_message(ps[k].name@)
    } else {
        is_profile_error(ps[k], e)
    }
}

impl ProfilesConfig {
    /// Checks the catalog: at least one profile, unique names (compared
    /// exactly), and each profile well-formed. The error describes the first
    /// fault in catalog order.
    pub fn validate(&self) -> (r: Result<(), String>)
        ensures
            r is Ok <==> catalog_ok(self.profiles@),
            r is Err && self.profiles@.len() == 0 ==> r->Err_0@ == "No profiles defined"@,
            r is Err && self.profiles@.len() > 0 ==> exists|k: int|
                is_catalog_error_at(self.profiles@, k, r->Err_0@),
    {
        if self.profiles.len() == 0 {
            return Err(String::from_str("No profiles defined"));
        }
        let ghost ps = self.profiles@;
        let mut k: usize = 0;
        while k < self.profiles.len()
            invariant
                k <= ps.len(),
                ps == self.profiles@,
                forall|j: int| 0 <= j < k ==> entry_ok(ps, j),
            decreases self.profiles.len() - k,
        {
            let profile = &self.profiles[k];
            let mut i: usize = 0;
            while i < k
                invariant
                    i <= k < ps.len(),
                    ps == self.profiles@,
                    *profile == ps[k as int],
                    forall|j: int| 0 <= j < k ==> entry_ok(ps, j),
                    forall|j: int| 0 <= j < i ==> ps[j].name@ != ps[k as int].name@,
                decreases k - i,
            {
                if same_text(self.profiles[i].name.as_str(), profile.name.as_str()) {
                    assert(name_repeated(ps, k as int));
                    let msg = String::from_str("Profile name ").concat(
                        profile.name.as_str(),
                    ).concat(" is not unique");
                    let r: Result<(), String> = Err(msg);
                    assert(is_catalog_error_at(self.profiles@, k as int, r->Err_0@));
                    return r;
                }
                i = i + 1;
            }
            assert(!name_repeated(ps, k as int));
            match profile.validate(&profile.name) {
                Ok(()) => {},
                Err(e) => {
                    assert(is_profile_error(ps[k as int], e@));
                    assert(is_catalog_error_at(ps, k as int, e@));
                    return Err(e);
                },
            }
            k = k + 1;
        }
        Ok(())
    }
}

impl Default for ProfilesConfig {
    fn default() -> (r: Self)
        ensures
            is_default_catalog(r.profiles@),
    {
        ProfilesConfig { profiles: default_profiles() }
    }
}

/// The catalog shipped by default: one profile "local" on provider
/// "ollama" with the single balanced model "gemma3:12b".
pub open spec fn is_default_catalog(ps: Seq<Profile>) -> bool {
    &&& ps.len() == 1
    &&& ps[0].name@ == "local"@
    &&& ps[0].provider@ == "ollama"@
    &&& ps[0].models@.len() == 1
    &&& ps[0].models@[0].model@ == "gemma3:12b"@
    &&& ps[0].models@[0].description is None
    &&& ps[0].models@[0].model_type == ModelType::Balanced
}

/// The default catalog's profiles.
pub fn default_profiles() -> (r: Vec<Profile>)
    ensures
        is_default_catalog(r@),
{
    let mut models: Vec<Model> = Vec::new();
    models.push(
        Model {
            model: String::from_str("gemma3:12b"),
            description: None,
            model_type: ModelType::Balanced,
        },
    );
    let mut profiles: Vec<Profile> = Vec::new();
    profiles.push(
        Profile {
            name: String::from_str("local"),
            provider: String::from_str("ollama"),
            models,
        },
    );
    profiles
}

} // verus!
