use cforge::commands::{
    create_command_registry, find_command, get_commands, list_entry, CommandKind, CommandReply, CommandResult,
    CommandStruct, FileCommandDirectory,
};
use cforge::name_map::NameMap;
use cforge::profiles_config::ModelType;
use cforge::user_config::default_command_prefixes;

fn run(kind: CommandKind, input: &str) -> CommandReply {
    let args: Vec<String> = input.split_whitespace().map(|s| s.to_string()).collect();
    CommandStruct::new("cmd", "", None, None, kind, None).execute(&args)
}

#[test]
fn commands_test_switch_command() {
    let reply = run(CommandKind::Switch, "new-history.txt");
    if let CommandResult::SwitchHistory(filename) = reply.result {
        assert_eq!(filename, "new-history.txt");
    } else {
        panic!("Expected SwitchHistory result but got something else");
    }
}

#[test]
fn commands_test_switch_command_with_no_args() {
    let reply = run(CommandKind::Switch, "");
    assert!(matches!(reply.result, CommandResult::Continue));
    assert!(reply.notice.is_some());
}

#[test]
fn commands_test_exit_command() {
    assert!(matches!(run(CommandKind::Quit, "").result, CommandResult::Quit));
}

#[test]
fn commands_test_help_command() {
    assert!(matches!(run(CommandKind::Help, "").result, CommandResult::Continue));
}

#[test]
fn commands_test_sysprompt_command() {
    assert!(matches!(
        run(CommandKind::Sysprompt, "You are a pirate").result,
        CommandResult::Continue
    ));
}

#[test]
fn commands_test_prompt_command_no_input() {
    assert!(matches!(run(CommandKind::Prompt, "").result, CommandResult::Continue));
}

#[test]
fn commands_test_prompt_command_edit_prompt_file() {
    if let CommandResult::HandlePrompt(file, user_prompt) = run(CommandKind::Prompt, "prompt_file").result {
        assert_eq!(user_prompt, None);
        assert_eq!(file, "prompt_file");
    } else {
        panic!("Expected HandlePrompt result but got something else");
    }
}

#[test]
fn commands_test_prompt_command() {
    let reply = run(CommandKind::Prompt, "prompt_file This is a test prompt");
    if let CommandResult::HandlePrompt(file, user_prompt) = reply.result {
        assert_eq!(user_prompt, Some("This is a test prompt".to_string()));
        assert_eq!(file, "prompt_file");
    } else {
        panic!("Expected HandlePrompt result but got something else");
    }
}

#[test]
fn commands_test_model_command_no_input() {
    assert!(matches!(run(CommandKind::Model, "").result, CommandResult::PrintModels));
}

#[test]
fn commands_test_model_command_invalid_input() {
    let reply = run(CommandKind::Model, "not a valid model type");
    assert!(matches!(reply.result, CommandResult::PrintModels));
    assert!(reply.notice.is_some());
}

#[test]
fn commands_test_model_command() {
    assert!(matches!(
        run(CommandKind::Model, "fast").result,
        CommandResult::SwitchModel(ModelType::Fast)
    ));
}

#[test]
fn commands_test_profile_command_no_input() {
    assert!(matches!(run(CommandKind::Profile, "").result, CommandResult::PrintProfiles));
}

#[test]
fn commands_test_profile_command() {
    if let CommandResult::SwitchProfile(profile) = run(CommandKind::Profile, "no_profile").result {
        assert_eq!(profile, "no_profile");
    } else {
        panic!("Expected SwitchProfile result but got something else");
    }
}

#[test]
fn context_command_sets_and_clears() {
    match run(CommandKind::Context, "notes.md").result {
        CommandResult::SwitchContext(Some(p)) => assert_eq!(p, "notes.md"),
        _ => panic!("Expected SwitchContext"),
    }
    assert!(matches!(
        run(CommandKind::Context, "").result,
        CommandResult::SwitchContext(None)
    ));
}

#[test]
fn commands_test_create_command_registry() {
    let registry = create_command_registry(&NameMap::new());
    for name in [
        "q", "list", "switch", "sysprompt", "help", "edit", "context", "prompt", "model", "profile",
        "tools", "clear",
    ] {
        assert!(find_command(&registry, name).is_some(), "{name}");
    }
    assert!(find_command(&registry, "nope").is_none());
    assert_eq!(registry.len(), 12);
}

#[test]
fn registry_takes_default_prefixes() {
    let registry = create_command_registry(&default_command_prefixes());
    let prefix = |n: &str| find_command(&registry, n).unwrap().default_prefix.clone();
    assert_eq!(prefix("switch"), Some("@c/".to_string()));
    assert_eq!(prefix("list"), Some("@c/".to_string()));
    assert_eq!(prefix("context"), Some("@k/".to_string()));
    assert_eq!(prefix("prompt"), Some("@p/".to_string()));
    assert_eq!(prefix("model"), None);
}

#[test]
fn get_commands_base() {
    let registry = vec![
        CommandStruct::new("cmd1", "", None, None, CommandKind::Help, None),
        CommandStruct::new("cmd2", "", None, Some(FileCommandDirectory::Cforge), CommandKind::Switch, None),
        CommandStruct::new("cmd3", "", None, Some(FileCommandDirectory::Knowledge), CommandKind::Context, None),
    ];
    let command_vecs = get_commands(&registry);
    assert_eq!(3, command_vecs.all_commands.len());
    assert_eq!(2, command_vecs.file_commands.len());
    assert_eq!(command_vecs.file_commands[1].0, "cmd3");
    assert_eq!(command_vecs.file_commands[1].1, FileCommandDirectory::Knowledge);
}

#[test]
fn get_commands_empty_registry() {
    let command_vecs = get_commands(&vec![]);
    assert_eq!(0, command_vecs.all_commands.len());
    assert_eq!(0, command_vecs.file_commands.len());
}

#[test]
fn list_entry_filters_and_strips_data_dir() {
    assert_eq!(
        list_entry("/data/chats/a.txt", "", "/data/chats"),
        Some("a.txt".to_string())
    );
    assert_eq!(
        list_entry("/data/chats/sub/b.txt", "sub", "/data/chats"),
        Some("sub/b.txt".to_string())
    );
    assert_eq!(list_entry("/data/chats/a.txt", "zzz", "/data/chats"), None);
    assert_eq!(
        list_entry("/elsewhere/c.txt", "", "/data/chats"),
        Some("/elsewhere/c.txt".to_string())
    );
}
