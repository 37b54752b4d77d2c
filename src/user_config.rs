//! The user-editable configuration and the lookup of profiles by name.

use crate::name_map::{lookup, NameMap};
use crate::profiles_config::{
    is_default_catalog, lemma_first_with_tier_bounds, tier_model, ModelType, Profile, ProfileView,
    ProfilesConfig,
};
use crate::text::same_text;
use vstd::prelude::*;

verus! {

/// How the line editor takes keys.
#[derive(Clone, Copy, Debug, PartialEq, Eq, Structural)]
pub enum EditMode {
    Emacs,
    Vi,
}

/// How the line editor offers completions.
#[derive(Clone, Copy, Debug, PartialEq, Eq, Structural)]
pub enum CompletionType {
    Circular,
    List,
}

/// Line-editor settings.
#[derive(Clone, Copy, Debug, PartialEq, Eq, Structural)]
pub struct RustylineConfig {
    pub edit_mode: EditMode,
    pub completion_type: CompletionType,
}

impl Default for RustylineConfig {
    fn default() -> (r: Self)
        ensures
            r.edit_mode == EditMode::Emacs,
            r.completion_type == CompletionType::Circular,
    {
        RustylineConfig { edit_mode: EditMode::Emacs, completion_type: CompletionType::Circular }
    }
}

/// The user's configuration.
#[derive(Debug)]
pub struct UserConfig {
    pub knowledge_dir: String,
    pub system_prompt: String,
    pub token_estimation: bool,
    pub max_tokens: usize,
    pub command_prefixes: NameMap<String>,
    pub rustyline: RustylineConfig,
    pub profiles_config: ProfilesConfig,
}

/// The default path-alias prefixes of the file-taking commands.
pub open spec fn is_default_prefixes(m: Seq<(Seq<char>, Seq<char>)>) -> bool {
    &&& m.len() == 4
    &&& lookup(m, "switch"@) == Some("@c/"@)
    &&& lookup(m, "list"@) == Some("@c/"@)
    &&& lookup(m, "context"@) == Some("@k/"@)
    &&& lookup(m, "prompt"@) == Some("@p/"@)
}

pub fn default_command_prefixes() -> (r: NameMap<String>)
    ensures
        r.wf(),
        is_default_prefixes(r@),
{
    proof {
        reveal_strlit("switch");
        reveal_strlit("list");
        reveal_strlit("context");
        reveal_strlit("prompt");
    }
    assert("switch"@.len() == 6 && "list"@.len() == 4 && "context"@.len() == 7 && "prompt"@.len()
        == 6);
    assert("switch"@[0] != "prompt"@[0]);
    let mut m: NameMap<String> = NameMap::new();
    assert(lookup(m@, "switch"@) is None);
    m.insert(String::from_str("switch"), String::from_str("@c/"));
    assert(lookup(m@, "list"@) is None);
    m.insert(String::from_str("list"), String::from_str("@c/"));
    assert(lookup(m@, "context"@) is None);
    m.insert(String::from_str("context"), String::from_str("@k/"));
    assert(lookup(m@, "prompt"@) is None);
    m.insert(String::from_str("prompt"), String::from_str("@p/"));
    m
}

pub fn default_token_estimation() -> (r: bool)
    ensures
        r,
{
    true
}

pub fn default_max_tokens() -> (r: usize)
    ensures
        r == 1024,
{
    1024
}

pub fn default_knowledge_dir() -> (r: String)
    ensures
        r@ == Seq::<char>::empty(),
{
    String::new()
}

pub fn default_system_prompt() -> (r: String)
    ensures
        r@ == DEFAULT_SYSTEM_PROMPT@,
{
    String::from_str(DEFAULT_SYSTEM_PROMPT)
}

/// The system prompt that a fresh configuration carries.
pub const DEFAULT_SYSTEM_PROMPT: &'static str = "\n    You are an AI assistant receiving input from a command-line\n    application called convo-forge (cforge). The user may include additional context from another file.\n    Your responses are displayed in the terminal and saved to the history file.\n    Keep your answers helpful, concise, and relevant to both the user's direct query and any file context provided.\n    \\n\\n";

/// The index of the first profile of `ps` at or after `from` named exactly
/// `name`.
pub open spec fn named_from(ps: Seq<Profile>, name: Seq<char>, from: int) -> Option<int>
    decreases ps.len() - from,
{
    if from < 0 || from >= ps.len() {
        None
    } else if ps[from].name@ == name {
        Some(from)
    } else {
        named_from(ps, name, from + 1)
    }
}

/// The index of the first profile of `ps` named exactly `name`, if any.
pub open spec fn first_named(ps: Seq<Profile>, name: Seq<char>) -> Option<int> {
    named_from(ps, name, 0)
}

proof fn lemma_named_from(ps: Seq<Profile>, name: Seq<char>, from: int)
    requires
        0 <= from,
    ensures
        named_from(ps, name, from) is None ==> forall|j: int|
            from <= j < ps.len() ==> ps[j].name@ != name,
        named_from(ps, name, from) is Some ==> {
            let i = named_from(ps, name, from)->0;
            from <= i < ps.len() && ps[i].name@ == name
        },
    decreases ps.len() - from,
{
    if from < ps.len() && ps[from].name@ != name {
        lemma_named_from(ps, name, from + 1);
    }
}

/// `first_named` gives an index of the catalog.
pub proof fn lemma_first_named_bounds(ps: Seq<Profile>, name: Seq<char>)
    ensures
        first_named(ps, name) is Some ==> 0 <= first_named(ps, name)->0 < ps.len(),
{
    lemma_named_from(ps, name, 0);
}

proof fn lemma_named_at(ps: Seq<Profile>, name: Seq<char>, from: int, i: int)
    requires
        0 <= from <= i < ps.len(),
        ps[i].name@ == name,
        forall|j: int| from <= j < i ==> ps[j].name@ != name,
    ensures
        named_from(ps, name, from) == Some(i),
    decreases i - from,
{
    if from < i {
        lemma_named_at(ps, name, from + 1, i);
    }
}

/// The profile that `find_profile` resolves `name` to: the first profile
/// named exactly `name`, else the catalog's first profile.
pub open spec fn resolved_profile(ps: Seq<Profile>, name: Seq<char>) -> Profile {
    match first_named(ps, name) {
        Some(i) => ps[i],
        None => ps[0],
    }
}

/// Fallbacks: a name that no profile has resolves to the catalog's first
/// profile, and a tier that a profile does not offer selects its first
/// model. These are what `find_profile` and `Profile::get_model` return.
pub proof fn lemma_fallbacks(ps: Seq<Profile>, name: Seq<char>, p: ProfileView, t: ModelType)
    requires
        ps.len() > 0,
        p.2.len() > 0,
    ensures
        (forall|i: int| 0 <= i < ps.len() ==> ps[i].name@ != name) ==> resolved_profile(ps, name)
            == ps[0],
        (forall|i: int| 0 <= i < p.2.len() ==> p.2[i].2 != t) ==> tier_model(p, t) == p.2[0],
{
    lemma_named_from(ps, name, 0);
    lemma_first_with_tier_bounds(p.2, t);
}

impl Default for UserConfig {
    fn default() -> (r: Self)
        ensures
            r.knowledge_dir@ == Seq::<char>::empty(),
            r.system_prompt@ == DEFAULT_SYSTEM_PROMPT@,
            r.token_estimation,
            r.max_tokens == 1024,
            r.command_prefixes.wf(),
            is_default_prefixes(r.command_prefixes@),
            r.rustyline.edit_mode == EditMode::Emacs,
            r.rustyline.completion_type == CompletionType::Circular,
            is_default_catalog(r.profiles_config.profiles@),
    {
        UserConfig {
            knowledge_dir: default_knowledge_dir(),
            system_prompt: default_system_prompt(),
            rustyline: RustylineConfig::default(),
            token_estimation: default_token_estimation(),
            max_tokens: default_max_tokens(),
            command_prefixes: default_command_prefixes(),
            profiles_config: ProfilesConfig::default(),
        }
    }
}

impl UserConfig {
    /// The profile named exactly `profile_name`; when there is none, the
    /// catalog's first profile. A validated catalog is never empty.
    pub fn find_profile(&self, profile_name: &str) -> (r: Profile)
        requires
            self.profiles_config.profiles@.len() > 0,
        ensures
            r@ == resolved_profile(self.profiles_config.profiles@, profile_name@)@,
            r.models@.len() == resolved_profile(
                self.profiles_config.profiles@,
                profile_name@,
            ).models@.len(),
            forall|i: int|
                0 <= i < r.models@.len() ==> r.models@[i]@ == resolved_profile(
                    self.profiles_config.profiles@,
                    profile_name@,
                ).models@[i]@,
    {
        let mut k: usize = 0;
        while k < self.profiles_config.profiles.len()
            invariant
                k <= self.profiles_config.profiles@.len(),
                forall|j: int|
                    0 <= j < k ==> self.profiles_config.profiles@[j].name@ != profile_name@,
            decreases self.profiles_config.profiles.len() - k,
        {
            if same_text(self.profiles_config.profiles[k].name.as_str(), profile_name) {
                proof {
                    lemma_named_at(self.profiles_config.profiles@, profile_name@, 0, k as int);
                }
                return self.profiles_config.profiles[k].duplicate();
            }
            k = k + 1;
        }
        proof {
            lemma_named_from(self.profiles_config.profiles@, profile_name@, 0);
        }
        self.profiles_config.profiles[0].duplicate()
    }
}

} // verus!
