//! The command table and what each command asks of the session.

use crate::name_map::{lookup, NameMap};
use crate::profiles_config::{tier_named, ModelType};
use crate::text::{
    chars_of, contains, contains_chars, copy_range, lower_of, occurs_at, occurs_at_index, opt_text,
    same_text, string_of,
};
use vstd::prelude::*;

verus! {

/// What a command asks the session to do next.
#[derive(Debug)]
pub enum CommandResult {
    Continue,
    Quit,
    SwitchHistory(String),
    SwitchContext(Option<String>),
    HandlePrompt(String, Option<String>),
    SwitchModel(ModelType),
    PrintModels,
    SwitchProfile(String),
    PrintProfiles,
}

/// The directory whose files a command's argument completes against.
#[derive(Clone, Copy, Debug, PartialEq, Eq, Structural)]
pub enum FileCommandDirectory {
    Knowledge,
    Cforge,
    Prompt,
}

/// Which command an entry of the table is.
#[derive(Clone, Copy, Debug, PartialEq, Eq, Structural)]
pub enum CommandKind {
    Quit,
    List,
    Switch,
    Help,
    Edit,
    Sysprompt,
    Context,
    Prompt,
    Model,
    Profile,
    Tools,
    Clear,
}

/// One entry of the command table.
#[derive(Debug)]
pub struct CommandStruct {
    pub command_string: String,
    pub description: String,
    pub command_example: Option<String>,
    pub file_command: Option<FileCommandDirectory>,
    pub kind: CommandKind,
    pub default_prefix: Option<String>,
}

/// A command's result, with a notice for the user when the command was
/// misused.
#[derive(Debug)]
pub struct CommandReply {
    pub result: CommandResult,
    pub notice: Option<String>,
}

/// `parts` joined with single spaces.
pub open spec fn joined(parts: Seq<Seq<char>>) -> Seq<char>
    decreases parts.len(),
{
    if parts.len() == 0 {
        Seq::empty()
    } else if parts.len() == 1 {
        parts[0]
    } else {
        joined(parts.drop_last()) + seq![' '] + parts.last()
    }
}

pub open spec fn texts(v: Seq<String>) -> Seq<Seq<char>> {
    v.map_values(|s: String| s@)
}

/// `args[from..]` joined with single spaces.
pub fn join_from(args: &Vec<String>, from: usize) -> (r: String)
    requires
        from <= args@.len(),
    ensures
        r@ == joined(texts(args@).subrange(from as int, args@.len() as int)),
{
    let mut out = String::new();
    let mut k: usize = from;
    while k < args.len()
        invariant
            from <= k <= args@.len(),
            out@ == joined(texts(args@).subrange(from as int, k as int)),
        decreases args.len() - k,
    {
        let ghost before = texts(args@).subrange(from as int, k as int);
        proof {
            reveal_strlit(" ");
        }
        if k > from {
            out.append(" ");
        }
        out.append(args[k].as_str());
        proof {
            let now = texts(args@).subrange(from as int, k + 1);
            assert(now.drop_last() =~= before);
            assert(now.last() == args@[k as int]@);
            if k == from {
                assert(before =~= Seq::<Seq<char>>::empty());
                assert(out@ =~= args@[k as int]@);
            }
        }
        k = k + 1;
    }
    out
}

impl CommandStruct {
    pub fn new(
        command_string: &str,
        description: &str,
        command_example: Option<&str>,
        file_command: Option<FileCommandDirectory>,
        kind: CommandKind,
        default_prefix: Option<String>,
    ) -> (r: Self)
        ensures
            r.command_string@ == command_string@,
            r.description@ == description@,
            opt_text(r.default_prefix) == opt_text(default_prefix),
            r.file_command == file_command,
            r.kind == kind,
            r.command_example is Some <==> command_example is Some,
            r.command_example is Some ==> r.command_example->0@ == command_example->0@,
    {
        CommandStruct {
            command_string: String::from_str(command_string),
            description: String::from_str(description),
            command_example: match command_example {
                Some(e) => Some(String::from_str(e)),
                None => None,
            },
            file_command,
            kind,
            default_prefix,
        }
    }

    /// Runs the command on `args`. The commands whose work lies outside the
    /// session state (list, help, edit, sysprompt, tools, clear) answer
    /// `Continue`; their caller does that work.
    pub fn execute(&self, args: &Vec<String>) -> (r: CommandReply)
        ensures
            reply_matches(&r, self.kind, texts(args@)),
    {
        let kind = self.kind;
        match kind {
            CommandKind::Quit => CommandReply { result: CommandResult::Quit, notice: None },
            CommandKind::Switch => {
                if args.len() > 0 {
                    CommandReply {
                        result: CommandResult::SwitchHistory(args[0].clone()),
                        notice: None,
                    }
                } else {
                    CommandReply {
                        result: CommandResult::Continue,
                        notice: Some(
                            String::from_str(
                                "Error: No history file specified. Usage: :switch <history_file>",
                            ),
                        ),
                    }
                }
            },
            CommandKind::Model => {
                if args.len() > 0 {
                    match ModelType::from_str(args[0].as_str()) {
                        Ok(t) => CommandReply { result: CommandResult::SwitchModel(t), notice: None },
                        Err(_) => {
                            let msg = String::from_str("Error: Invalid model type specified: ").concat(
                                args[0].as_str(),
                            ).concat(
                                ". Usage: :model <model>\nValid models types are 'fast', 'balanced', or 'deep'\n",
                            );
                            CommandReply { result: CommandResult::PrintModels, notice: Some(msg) }
                        },
                    }
                } else {
                    CommandReply { result: CommandResult::PrintModels, notice: None }
                }
            },
            CommandKind::Profile => {
                if args.len() > 0 {
                    CommandReply {
                        result: CommandResult::SwitchProfile(args[0].clone()),
                        notice: None,
                    }
                } else {
                    CommandReply { result: CommandResult::PrintProfiles, notice: None }
                }
            },
            CommandKind::Context => {
                if args.len() > 0 {
                    CommandReply {
                        result: CommandResult::SwitchContext(Some(args[0].clone())),
                        notice: None,
                    }
                } else {
                    CommandReply { result: CommandResult::SwitchContext(None), notice: None }
                }
            },
            CommandKind::Prompt => {
                if args.len() == 0 {
                    CommandReply {
                        result: CommandResult::Continue,
                        notice: Some(
                            String::from_str(
                                "Error: No prompt file specified. Usage: :prompt <prompt_file>",
                            ),
                        ),
                    }
                } else {
                    let user_prompt = if args.len() > 1 {
                        Some(join_from(args, 1))
                    } else {
                        None
                    };
                    CommandReply {
                        result: CommandResult::HandlePrompt(args[0].clone(), user_prompt),
                        notice: None,
                    }
                }
            },
            _ => CommandReply { result: CommandResult::Continue, notice: None },
        }
    }
}

/// Whether `r` is what command `kind` answers to `args`.
pub open spec fn reply_matches(r: &CommandReply, kind: CommandKind, args: Seq<Seq<char>>) -> bool {
    match kind {
        CommandKind::Quit => r.result is Quit && r.notice is None,
        CommandKind::Switch => if args.len() > 0 {
            r.result matches CommandResult::SwitchHistory(f) && f@ == args[0] && r.notice is None
        } else {
            r.result is Continue && r.notice is Some
        },
        CommandKind::Model => if args.len() > 0 {
            match tier_named(lower_of(args[0])) {
                Some(t) => r.result == CommandResult::SwitchModel(t) && r.notice is None,
                None => r.result is PrintModels && r.notice is Some,
            }
        } else {
            r.result is PrintModels && r.notice is None
        },
        CommandKind::Profile => if args.len() > 0 {
            r.result matches CommandResult::SwitchProfile(n) && n@ == args[0] && r.notice is None
        } else {
            r.result is PrintProfiles && r.notice is None
        },
        CommandKind::Context => if args.len() > 0 {
            r.result matches CommandResult::SwitchContext(p) && opt_text(p) == Some(args[0])
                && r.notice is None
        } else {
            r.result matches CommandResult::SwitchContext(p) && p is None && r.notice is None
        },
        CommandKind::Prompt => if args.len() == 0 {
            r.result is Continue && r.notice is Some
        } else {
            r.result matches CommandResult::HandlePrompt(f, u) && f@ == args[0] && r.notice is None
                && opt_text(u) == (if args.len() > 1 {
                Some(joined(args.subrange(1, args.len() as int)))
            } else {
                None
            })
        },
        _ => r.result is Continue && r.notice is None,
    }
}

/// The commands of the table, by name, in table order.
pub open spec fn command_table() -> Seq<(Seq<char>, CommandKind)> {
    seq![
        ("q"@, CommandKind::Quit),
        ("list"@, CommandKind::List),
        ("switch"@, CommandKind::Switch),
        ("help"@, CommandKind::Help),
        ("edit"@, CommandKind::Edit),
        ("sysprompt"@, CommandKind::Sysprompt),
        ("context"@, CommandKind::Context),
        ("prompt"@, CommandKind::Prompt),
        ("model"@, CommandKind::Model),
        ("profile"@, CommandKind::Profile),
        ("tools"@, CommandKind::Tools),
        ("clear"@, CommandKind::Clear),
    ]
}

/// Whether a command takes a path-alias prefix from the configuration.
pub open spec fn takes_prefix(k: CommandKind) -> bool {
    k == CommandKind::List || k == CommandKind::Switch || k == CommandKind::Context || k
        == CommandKind::Prompt
}

/// The command table. The file-taking commands get their default
/// path-alias prefix from `default_prefixes`, under their own name.
pub fn create_command_registry(default_prefixes: &NameMap<String>) -> (r: Vec<CommandStruct>)
    ensures
        r@.len() == command_table().len(),
        forall|i: int|
            0 <= i < r@.len() ==> {
                &&& r@[i].command_string@ == command_table()[i].0
                &&& r@[i].kind == command_table()[i].1
                &&& opt_text(r@[i].default_prefix) == if takes_prefix(r@[i].kind) {
                    lookup(default_prefixes@, command_table()[i].0)
                } else {
                    None
                }
            },
{
    let mut r: Vec<CommandStruct> = Vec::new();
    r.push(
        CommandStruct::new(
            "q",
            "Exit the program",
            None,
            None,
            CommandKind::Quit,
            None,
        ),
    );
    r.push(
        CommandStruct::new(
            "list",
            "List files in the cforge directory. Optionally, you can provide a pattern to filter the results.",
            Some(":list <optional pattern>"),
            Some(FileCommandDirectory::Cforge),
            CommandKind::List,
            prefix_for(default_prefixes, "list"),
        ),
    );
    r.push(
        CommandStruct::new(
            "switch",
            "Switch to a different history file. Either relative to the data directory or absolute path. Creates the file if it doesn't exist.",
            Some(":switch <history file>"),
            Some(FileCommandDirectory::Cforge),
            CommandKind::Switch,
            prefix_for(default_prefixes, "switch"),
        ),
    );
    r.push(
        CommandStruct::new(
            "help",
            "Show this help message",
            None,
            None,
            CommandKind::Help,
            None,
        ),
    );
    r.push(
        CommandStruct::new(
            "edit",
            "Open the history file in your editor",
            None,
            None,
            CommandKind::Edit,
            None,
        ),
    );
    r.push(
        CommandStruct::new(
            "sysprompt",
            "Set the system prompt for current session",
            Some(":sysprompt <prompt>"),
            None,
            CommandKind::Sysprompt,
            None,
        ),
    );
    r.push(
        CommandStruct::new(
            "context",
            "Set the context file whose content goes with each prompt, or clear it when no file is given.",
            Some(":context <optional context file>"),
            Some(FileCommandDirectory::Knowledge),
            CommandKind::Context,
            prefix_for(default_prefixes, "context"),
        ),
    );
    r.push(
        CommandStruct::new(
            "prompt",
            "Select or edit a prompt file. Either relative to the prompt directory or absolute path. Creates the file if it doesn't exist.",
            Some(":prompt <prompt file> <actual prompt to use with the file>"),
            Some(FileCommandDirectory::Prompt),
            CommandKind::Prompt,
            prefix_for(default_prefixes, "prompt"),
        ),
    );
    r.push(
        CommandStruct::new(
            "model",
            "Change current model",
            Some(":model <model_type>"),
            None,
            CommandKind::Model,
            None,
        ),
    );
    r.push(
        CommandStruct::new(
            "profile",
            "Change current profile",
            Some(":profile <profile>"),
            None,
            CommandKind::Profile,
            None,
        ),
    );
    r.push(
        CommandStruct::new(
            "tools",
            "List the tools available to the model",
            None,
            None,
            CommandKind::Tools,
            None,
        ),
    );
    r.push(
        CommandStruct::new(
            "clear",
            "Clear the current history file (empties its contents).",
            Some(":clear"),
            None,
            CommandKind::Clear,
            None,
        ),
    );
    assert(r@.len() == command_table().len());
    r
}

/// A copy of the prefix stored under `name`, if any.
fn prefix_for(default_prefixes: &NameMap<String>, name: &str) -> (r: Option<String>)
    ensures
        opt_text(r) == lookup(default_prefixes@, name@),
{
    match default_prefixes.get(name) {
        Some(p) => Some(p.clone()),
        None => None,
    }
}

/// The first entry of `registry` named `name`, if any.
pub fn find_command<'a>(registry: &'a Vec<CommandStruct>, name: &str) -> (r: Option<
    &'a CommandStruct,
>)
    ensures
        r is None ==> forall|i: int| 0 <= i < registry@.len() ==> registry@[i].command_string@ != name@,
        r is Some ==> exists|i: int|
            0 <= i < registry@.len() && registry@[i] == *r->0 && r->0.command_string@ == name@
                && forall|j: int| 0 <= j < i ==> registry@[j].command_string@ != name@,
{
    let mut k: usize = 0;
    while k < registry.len()
        invariant
            k <= registry@.len(),
            forall|j: int| 0 <= j < k ==> registry@[j].command_string@ != name@,
        decreases registry.len() - k,
    {
        if same_text(registry[k].command_string.as_str(), name) {
            return Some(&registry[k]);
        }
        k = k + 1;
    }
    None
}

/// The command names for completion, each with its default prefix, and the
/// file-taking commands with the directory they complete against.
pub struct CommandVecs {
    pub all_commands: Vec<(String, Option<String>)>,
    pub file_commands: Vec<(String, FileCommandDirectory)>,
}

/// The commands of `registry` that take a file argument.
pub open spec fn file_entries(registry: Seq<CommandStruct>) -> Seq<CommandStruct>
    decreases registry.len(),
{
    if registry.len() == 0 {
        Seq::empty()
    } else {
        let rest = file_entries(registry.drop_last());
        if registry.last().file_command is Some {
            rest.push(registry.last())
        } else {
            rest
        }
    }
}

/// Lists the registry's commands for completion, in registry order.
pub fn get_commands(command_registry: &Vec<CommandStruct>) -> (r: CommandVecs)
    ensures
        r.all_commands@.len() == command_registry@.len(),
        forall|i: int|
            0 <= i < command_registry@.len() ==> r.all_commands@[i].0@
                == command_registry@[i].command_string@ && opt_text(r.all_commands@[i].1)
                == opt_text(command_registry@[i].default_prefix),
        r.file_commands@.len() == file_entries(command_registry@).len(),
        forall|i: int|
            0 <= i < r.file_commands@.len() ==> r.file_commands@[i].0@ == file_entries(
                command_registry@,
            )[i].command_string@ && Some(r.file_commands@[i].1) == file_entries(
                command_registry@,
            )[i].file_command,
{
    let mut all_commands: Vec<(String, Option<String>)> = Vec::new();
    let mut file_commands: Vec<(String, FileCommandDirectory)> = Vec::new();
    let mut k: usize = 0;
    while k < command_registry.len()
        invariant
            k <= command_registry@.len(),
            all_commands@.len() == k,
            forall|i: int|
                0 <= i < k ==> all_commands@[i].0@ == command_registry@[i].command_string@
                    && opt_text(all_commands@[i].1) == opt_text(
                    command_registry@[i].default_prefix,
                ),
            file_commands@.len() == file_entries(command_registry@.subrange(0, k as int)).len(),
            forall|i: int|
                0 <= i < file_commands@.len() ==> file_commands@[i].0@ == file_entries(
                    command_registry@.subrange(0, k as int),
                )[i].command_string@ && Some(file_commands@[i].1) == file_entries(
                    command_registry@.subrange(0, k as int),
                )[i].file_command,
        decreases command_registry.len() - k,
    {
        let c = &command_registry[k];
        let prefix = match &c.default_prefix {
            Some(p) => Some(p.clone()),
            None => None,
        };
        all_commands.push((c.command_string.clone(), prefix));
        let ghost sub = command_registry@.subrange(0, k + 1);
        assert(sub.drop_last() =~= command_registry@.subrange(0, k as int));
        assert(sub.last() == *c);
        match c.file_command {
            Some(d) => {
                file_commands.push((c.command_string.clone(), d));
            },
            None => {},
        }
        k = k + 1;
    }
    assert(command_registry@.subrange(0, command_registry@.len() as int) =~= command_registry@);
    CommandVecs { all_commands, file_commands }
}

/// How `list` shows the file at `path`: nothing when `pattern` is given and
/// the path does not hold it; otherwise the path relative to `cforge_dir`
/// (without a leading slash) when it starts with that directory, else the
/// whole path.
pub open spec fn list_shown(path: Seq<char>, pattern: Seq<char>, cforge_dir: Seq<char>) -> Option<
    Seq<char>,
> {
    if pattern.len() == 0 || contains(path, pattern) {
        if occurs_at(path, 0, cforge_dir) {
            let rest = path.subrange(cforge_dir.len() as int, path.len() as int);
            if rest.len() > 0 && rest[0] == '/' {
                Some(rest.drop_first())
            } else {
                Some(rest)
            }
        } else {
            Some(path)
        }
    } else {
        None
    }
}

/// The line that `list` prints for the file at `path` (see `list_shown`).
pub fn list_entry(path: &str, pattern: &str, cforge_dir: &str) -> (r: Option<String>)
    ensures
        opt_text(r) == list_shown(path@, pattern@, cforge_dir@),
{
    let p = chars_of(path);
    let pat = chars_of(pattern);
    let dir = chars_of(cforge_dir);
    if pat.len() > 0 && !contains_chars(&p, &pat) {
        return None;
    }
    if occurs_at_index(&p, 0, &dir) {
        let mut a = dir.len();
        if a < p.len() && p[a] == '/' {
            a = a + 1;
        }
        let rest = copy_range(&p, a, p.len());
        proof {
            let whole = p@.subrange(dir@.len() as int, p@.len() as int);
            if whole.len() > 0 && whole[0] == '/' {
                assert(whole.drop_first() =~= rest@);
            } else {
                assert(whole =~= rest@);
            }
        }
        Some(string_of(rest))
    } else {
        Some(String::from_str(path))
    }
}

} // verus!
