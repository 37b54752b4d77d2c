//! The turn processor: it applies what a command asked for to the session
//! state and tells its caller what is left to do outside.

use crate::app_config::{
    find_profile_from, model_switched, profile_switched, AppConfig,
};
use crate::commands::{
    find_command, reply_matches, texts, CommandKind, CommandReply, CommandResult, CommandStruct,
};
use crate::user_input::Command;
use crate::profiles_config::lemma_first_with_tier_bounds;
use crate::profiles_config::{catalog_ok, first_with_tier, tier_model, ModelType, ProfileView};
use crate::text::{chars_of, contains, contains_chars, occurs_at, occurs_at_index, opt_text, string_of};
use vstd::prelude::*;

verus! {

/// What is left for the caller once a command's outcome was applied.
#[derive(Debug)]
pub enum Followup {
    /// Nothing more.
    Nothing,
    /// Open the transcript at this path and make it the active one.
    OpenHistory(String),
    /// The context file was set to this path.
    ContextSet(String),
    /// The context file was cleared.
    ContextCleared,
    /// Open this prompt file in the editor.
    EditPrompt(String),
    /// Read this prompt file, combine it with this prompt, and send it.
    RunPrompt(String, String),
    /// The active model changed: report it and persist the cache.
    ModelSwitched,
    /// The active profile offers no model of this tier.
    ModelMissing(ModelType),
    /// The active profile changed: report it and persist the cache.
    ProfileSwitched,
    /// No profile has this name.
    ProfileMissing(String),
    /// List the active profile's models.
    PrintModels,
    /// List the catalog's profiles.
    PrintProfiles,
}

/// The session state that commands change: the configuration with the
/// active profile and model, the context file, and whether the chat client
/// must be rebuilt for a new model.
#[derive(Debug)]
pub struct CommandProcessor {
    pub app_config: AppConfig,
    pub context_file_path: Option<String>,
    pub rebuild_chat_client: bool,
}

/// The literal that a prompt template marks the user's prompt with.
pub const PROMPT_PLACEHOLDER: &'static str = "${{user_prompt}}";

/// `s` with each occurrence of `pat`, taken left to right without overlap,
/// replaced by `by`.
pub open spec fn replaced(s: Seq<char>, pat: Seq<char>, by: Seq<char>) -> Seq<char>
    decreases s.len(),
{
    if pat.len() == 0 || s.len() == 0 {
        s
    } else if occurs_at(s, 0, pat) {
        by + replaced(s.subrange(pat.len() as int, s.len() as int), pat, by)
    } else {
        seq![s[0]] + replaced(s.drop_first(), pat, by)
    }
}

/// The prompt that a template makes with `user_prompt`: the template with
/// the placeholder replaced by it, or, without a placeholder, the template
/// followed by it.
pub open spec fn combined(template: Seq<char>, user_prompt: Seq<char>) -> Seq<char> {
    if contains(template, PROMPT_PLACEHOLDER@) {
        replaced(template, PROMPT_PLACEHOLDER@, user_prompt)
    } else {
        template + user_prompt
    }
}

impl CommandProcessor {
    pub fn new(app_config: AppConfig, context_file_path: Option<String>) -> (r: Self)
        ensures
            r.app_config == app_config,
            r.context_file_path == context_file_path,
            !r.rebuild_chat_client,
    {
        CommandProcessor { app_config, context_file_path, rebuild_chat_client: false }
    }

    /// Switches to the active profile's first model of tier `tier`. When the
    /// profile has none, nothing changes and the answer is false.
    pub fn switch_model(&mut self, tier: ModelType) -> (ok: bool)
        ensures
            ok == (first_with_tier(old(self).app_config.current_profile@.2, tier) is Some),
            ok ==> {
                &&& final(self).app_config.session() == model_switched(
                    old(self).app_config.session(),
                    tier_model(old(self).app_config.current_profile@, tier),
                )
                &&& final(self).app_config.same_surroundings(&old(self).app_config)
                &&& final(self).context_file_path == old(self).context_file_path
                &&& final(self).rebuild_chat_client
            },
            !ok ==> *final(self) == *old(self),
            old(self).app_config.wf() ==> final(self).app_config.wf(),
    {
        match self.app_config.current_profile.maybe_model(&tier) {
            Some(model) => {
                proof {
                    crate::profiles_config::lemma_first_with_tier_bounds(
                        self.app_config.current_profile@.2,
                        tier,
                    );
                }
                self.app_config.switch_model(&model);
                self.rebuild_chat_client = true;
                proof {
                    let ms = self.app_config.current_profile@.2;
                    let i = first_with_tier(ms, tier)->0;
                    assert(0 <= i < ms.len() && ms[i] == self.app_config.current_model@);
                    crate::name_map::lemma_stored(
                        old(self).app_config.session().remembered,
                        self.app_config.current_profile@.0,
                        self.app_config.current_model.model_type,
                    );
                }
                true
            },
            None => false,
        }
    }

    /// Switches to the first profile whose name matches `name` regardless of
    /// letter case. When there is none, nothing changes and the answer is
    /// false.
    pub fn switch_profile(&mut self, name: &str) -> (ok: bool)
        requires
            catalog_ok(old(self).app_config.user_config.profiles_config.profiles@),
        ensures
            ok == (find_profile_from(old(self).app_config.catalog(), name@, 0) is Some),
            ok ==> {
                &&& final(self).app_config.session() == profile_switched(
                    old(self).app_config.session(),
                    old(self).app_config.catalog()[find_profile_from(
                        old(self).app_config.catalog(),
                        name@,
                        0,
                    )->0],
                )
                &&& final(self).app_config.same_surroundings(&old(self).app_config)
                &&& final(self).context_file_path == old(self).context_file_path
                &&& final(self).rebuild_chat_client
                &&& final(self).app_config.wf()
            },
            !ok ==> *final(self) == *old(self),
    {
        match self.app_config.maybe_profile(name) {
            Some(profile) => {
                proof {
                    crate::app_config::lemma_find_profile_bounds(
                        self.app_config.catalog(),
                        name@,
                        0,
                    );
                    let i = find_profile_from(self.app_config.catalog(), name@, 0)->0;
                    assert(crate::profiles_config::entry_ok(
                        self.app_config.user_config.profiles_config.profiles@,
                        i,
                    ));
                }
                self.app_config.switch_profile(&profile);
                self.rebuild_chat_client = true;
                true
            },
            None => false,
        }
    }

    /// Sets or clears the context file.
    pub fn switch_context(&mut self, path: Option<String>)
        ensures
            final(self).context_file_path == path,
            final(self).app_config == old(self).app_config,
            final(self).rebuild_chat_client == old(self).rebuild_chat_client,
    {
        self.context_file_path = path;
    }
}

/// `cs` with each occurrence of `pat`, left to right without overlap,
/// replaced by `by`.
pub fn replace_all(cs: &Vec<char>, pat: &Vec<char>, by: &Vec<char>) -> (r: Vec<char>)
    requires
        pat@.len() > 0,
    ensures
        r@ == replaced(cs@, pat@, by@),
{
    let mut out: Vec<char> = Vec::new();
    let mut pos: usize = 0;
    assert(cs@.subrange(0, cs@.len() as int) =~= cs@);
    while pos < cs.len()
        invariant
            pos <= cs@.len(),
            pat@.len() > 0,
            out@ + replaced(cs@.subrange(pos as int, cs@.len() as int), pat@, by@) == replaced(
                cs@,
                pat@,
                by@,
            ),
        decreases cs.len() - pos,
    {
        let ghost rest = cs@.subrange(pos as int, cs@.len() as int);
        let ghost before = out@;
        if occurs_at_index(cs, pos, pat) {
            assert(rest.subrange(0, pat@.len() as int) =~= cs@.subrange(
                pos as int,
                pos + pat@.len(),
            ));
            assert(occurs_at(rest, 0, pat@));
            let mut k: usize = 0;
            while k < by.len()
                invariant
                    k <= by@.len(),
                    out@ == before + by@.subrange(0, k as int),
                decreases by.len() - k,
            {
                out.push(by[k]);
                assert(out@ =~= before + by@.subrange(0, k + 1));
                k = k + 1;
            }
            assert(by@.subrange(0, by@.len() as int) =~= by@);
            assert(rest.subrange(pat@.len() as int, rest.len() as int) =~= cs@.subrange(
                pos + pat@.len(),
                cs@.len() as int,
            ));
            pos = pos + pat.len();
            assert(out@ + replaced(cs@.subrange(pos as int, cs@.len() as int), pat@, by@) =~= before
                + replaced(rest, pat@, by@));
        } else {
            assert(!occurs_at(rest, 0, pat@)) by {
                if occurs_at(rest, 0, pat@) {
                    assert(rest.subrange(0, pat@.len() as int) =~= cs@.subrange(
                        pos as int,
                        pos + pat@.len(),
                    ));
                }
            }
            out.push(cs[pos]);
            assert(rest.drop_first() =~= cs@.subrange(pos + 1, cs@.len() as int));
            pos = pos + 1;
            assert(out@ + replaced(cs@.subrange(pos as int, cs@.len() as int), pat@, by@) =~= before
                + replaced(rest, pat@, by@));
        }
    }
    assert(out@ + replaced(cs@.subrange(pos as int, cs@.len() as int), pat@, by@) =~= out@);
    out
}

impl CommandProcessor {
    /// The prompt that the template text `prompt_content` makes with
    /// `user_prompt` (see `combined`).
    pub fn combine(prompt_content: &str, user_prompt: &str) -> (r: String)
        ensures
            r@ == combined(prompt_content@, user_prompt@),
    {
        let template = chars_of(prompt_content);
        let placeholder = chars_of(PROMPT_PLACEHOLDER);
        proof {
            reveal_strlit("${{user_prompt}}");
        }
        if contains_chars(&template, &placeholder) {
            let by = chars_of(user_prompt);
            string_of(replace_all(&template, &placeholder, &by))
        } else {
            String::from_str(prompt_content).concat(user_prompt)
        }
    }
}

/// Whether `f` is what applying `result` to a session whose catalog is
/// `catalog` and whose active profile is `profile` leaves to do, given
/// whether the switch it asked for (if any) succeeded.
pub open spec fn followup_matches(
    f: &Followup,
    result: &CommandResult,
    catalog: Seq<ProfileView>,
    profile: ProfileView,
) -> bool {
    match result {
        CommandResult::SwitchHistory(p) => f matches Followup::OpenHistory(q) && q@ == p@,
        CommandResult::SwitchContext(Some(p)) => f matches Followup::ContextSet(q) && q@ == p@,
        CommandResult::SwitchContext(None) => f is ContextCleared,
        CommandResult::HandlePrompt(p, None) => f matches Followup::EditPrompt(q) && q@ == p@,
        CommandResult::HandlePrompt(p, Some(u)) => f matches Followup::RunPrompt(q, v) && q@ == p@
            && v@ == u@,
        CommandResult::SwitchModel(t) => if first_with_tier(profile.2, *t) is Some {
            f is ModelSwitched
        } else {
            f matches Followup::ModelMissing(u) && u == *t
        },
        CommandResult::SwitchProfile(n) => if find_profile_from(catalog, n@, 0) is Some {
            f is ProfileSwitched
        } else {
            f matches Followup::ProfileMissing(m) && m@ == n@
        },
        CommandResult::PrintModels => f is PrintModels,
        CommandResult::PrintProfiles => f is PrintProfiles,
        _ => f is Nothing,
    }
}

impl CommandProcessor {
    /// Applies a command's outcome to the session: a model or profile switch
    /// (which on failure changes nothing), or a new context file. What is left
    /// to do outside the session comes back.
    pub fn handle_command(&mut self, result: CommandResult) -> (r: Followup)
        requires
            catalog_ok(old(self).app_config.user_config.profiles_config.profiles@),
        ensures
            followup_matches(
                &r,
                &result,
                old(self).app_config.catalog(),
                old(self).app_config.current_profile@,
            ),
            match result {
                CommandResult::SwitchModel(t) => if first_with_tier(
                    old(self).app_config.current_profile@.2,
                    t,
                ) is Some {
                    &&& final(self).app_config.session() == model_switched(
                        old(self).app_config.session(),
                        tier_model(old(self).app_config.current_profile@, t),
                    )
                    &&& final(self).app_config.same_surroundings(&old(self).app_config)
                    &&& final(self).context_file_path == old(self).context_file_path
                    &&& final(self).rebuild_chat_client
                } else {
                    *final(self) == *old(self)
                },
                CommandResult::SwitchProfile(n) => if find_profile_from(
                    old(self).app_config.catalog(),
                    n@,
                    0,
                ) is Some {
                    &&& final(self).app_config.session() == profile_switched(
                        old(self).app_config.session(),
                        old(self).app_config.catalog()[find_profile_from(
                            old(self).app_config.catalog(),
                            n@,
                            0,
                        )->0],
                    )
                    &&& final(self).app_config.same_surroundings(&old(self).app_config)
                    &&& final(self).context_file_path == old(self).context_file_path
                    &&& final(self).rebuild_chat_client
                } else {
                    *final(self) == *old(self)
                },
                CommandResult::SwitchContext(p) => {
                    &&& final(self).context_file_path == p
                    &&& final(self).app_config == old(self).app_config
                    &&& final(self).rebuild_chat_client == old(self).rebuild_chat_client
                },
                _ => *final(self) == *old(self),
            },
            old(self).app_config.wf() ==> final(self).app_config.wf(),
    {
        match result {
            CommandResult::SwitchHistory(path) => Followup::OpenHistory(path),
            CommandResult::SwitchContext(new_context) => {
                match new_context {
                    Some(p) => {
                        let shown = p.clone();
                        self.switch_context(Some(p));
                        Followup::ContextSet(shown)
                    },
                    None => {
                        self.switch_context(None);
                        Followup::ContextCleared
                    },
                }
            },
            CommandResult::HandlePrompt(prompt_file, user_prompt) => {
                match user_prompt {
                    None => Followup::EditPrompt(prompt_file),
                    Some(u) => Followup::RunPrompt(prompt_file, u),
                }
            },
            CommandResult::SwitchModel(t) => {
                if self.switch_model(t) {
                    Followup::ModelSwitched
                } else {
                    Followup::ModelMissing(t)
                }
            },
            CommandResult::SwitchProfile(name) => {
                if self.switch_profile(name.as_str()) {
                    Followup::ProfileSwitched
                } else {
                    Followup::ProfileMissing(name)
                }
            },
            CommandResult::PrintModels => Followup::PrintModels,
            CommandResult::PrintProfiles => Followup::PrintProfiles,
            _ => Followup::Nothing,
        }
    }
}

/// What processing a command line did: which command ran, the notice it
/// gave, whether it ends the session, and what is left to do outside.
#[derive(Debug)]
pub struct Handled {
    pub kind: CommandKind,
    pub notice: Option<String>,
    pub quit: bool,
    pub followup: Followup,
}

impl CommandProcessor {
    /// Looks `command` up in `registry`, runs it, and applies its outcome.
    /// An unknown name changes nothing and gives none.
    pub fn process_command(&mut self, registry: &Vec<CommandStruct>, command: &Command) -> (r:
        Option<Handled>)
        requires
            catalog_ok(old(self).app_config.user_config.profiles_config.profiles@),
        ensures
            r is None <==> forall|i: int|
                0 <= i < registry@.len() ==> registry@[i].command_string@ != command.name@,
            r is None ==> *final(self) == *old(self),
            r is Some ==> exists|i: int, rep: CommandReply|
                {
                    &&& 0 <= i < registry@.len()
                    &&& registry@[i].command_string@ == command.name@
                    &&& (forall|j: int|
                        0 <= j < i ==> registry@[j].command_string@ != command.name@)
                    &&& r->0.kind == registry@[i].kind
                    &&& reply_matches(&rep, registry@[i].kind, texts(command.args@))
                    &&& r->0.quit == (rep.result is Quit)
                    &&& opt_text(r->0.notice) == opt_text(rep.notice)
                    &&& followup_matches(
                        &r->0.followup,
                        &rep.result,
                        old(self).app_config.catalog(),
                        old(self).app_config.current_profile@,
                    )
                },
            old(self).app_config.wf() ==> final(self).app_config.wf(),
    {
        match find_command(registry, command.name.as_str()) {
            None => None,
            Some(cmd) => {
                let reply = cmd.execute(&command.args);
                let ghost rep = reply;
                let quit = match reply.result {
                    CommandResult::Quit => true,
                    _ => false,
                };
                let CommandReply { result, notice } = reply;
                let followup = self.handle_command(result);
                let h = Handled { kind: cmd.kind, notice, quit, followup };
                proof {
                    let i = choose|i: int|
                        0 <= i < registry@.len() && registry@[i] == *cmd
                            && cmd.command_string@ == command.name@ && forall|j: int|
                            0 <= j < i ==> registry@[j].command_string@ != command.name@;
                    assert(reply_matches(&rep, registry@[i].kind, texts(command.args@)));
                }
                Some(h)
            },
        }
    }
}

} // verus!
