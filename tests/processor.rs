use cforge::app_config::AppConfig;
use cforge::cache_config::CacheConfig;
use cforge::commands::{create_command_registry, CommandKind, CommandResult};
use cforge::name_map::NameMap;
use cforge::processor::{CommandProcessor, Followup};
use cforge::profiles_config::{Model, ModelType, Profile, ProfilesConfig};
use cforge::user_config::UserConfig;
use cforge::user_input::UserInput;

fn model(name: &str, model_type: ModelType) -> Model {
    Model {
        model: name.to_string(),
        description: None,
        model_type,
    }
}

fn user_config() -> UserConfig {
    let mut config = UserConfig::default();
    config.profiles_config = ProfilesConfig {
        profiles: vec![
            Profile {
                name: "local".to_string(),
                provider: "ollama".to_string(),
                models: vec![
                    model("gemma3:4b", ModelType::Fast),
                    model("gemma3:12b", ModelType::Balanced),
                ],
            },
            Profile {
                name: "Cloud".to_string(),
                provider: "anthropic".to_string(),
                models: vec![
                    model("haiku", ModelType::Fast),
                    model("opus", ModelType::Deep),
                ],
            },
        ],
    };
    config
}

fn processor_with(cache: CacheConfig) -> CommandProcessor {
    let app_config =
        AppConfig::load_config(cache, user_config(), "data".to_string(), "prompts".to_string())
            .unwrap();
    CommandProcessor::new(app_config, None)
}

fn processor() -> CommandProcessor {
    processor_with(CacheConfig::empty())
}

fn snapshot(p: &CommandProcessor) -> String {
    format!("{:?}", p)
}

#[test]
fn load_config_starts_on_first_profile_and_model() {
    let p = processor();
    assert_eq!(p.app_config.current_profile.name, "local");
    assert_eq!(p.app_config.current_model.model, "gemma3:4b");
    assert_eq!(p.app_config.cache_config.last_profile_name, Some("local".to_string()));
    let remembered = p.app_config.cache_config.profile_models.as_ref().unwrap();
    assert_eq!(remembered.get("local"), Some(&ModelType::Fast));
}

#[test]
fn load_config_uses_remembered_profile_and_tier() {
    let mut tiers = NameMap::new();
    tiers.insert("Cloud".to_string(), ModelType::Deep);
    let cache = CacheConfig::new(None, Some("Cloud".to_string()), Some(tiers));
    let p = processor_with(cache);
    assert_eq!(p.app_config.current_profile.name, "Cloud");
    assert_eq!(p.app_config.current_model.model, "opus");
}

#[test]
fn load_config_rejects_invalid_catalog() {
    let mut config = user_config();
    config.profiles_config.profiles.clear();
    let r = AppConfig::load_config(CacheConfig::empty(), config, String::new(), String::new());
    assert_eq!(r.err(), Some("No profiles defined".to_string()));
}

#[test]
fn switch_model_to_missing_tier_fails_and_changes_nothing() {
    let mut p = processor();
    let before = snapshot(&p);
    assert!(!p.switch_model(ModelType::Deep));
    assert_eq!(p.app_config.current_model.model, "gemma3:4b");
    assert_eq!(snapshot(&p), before);
    assert!(!p.rebuild_chat_client);
}

#[test]
fn switch_model_remembers_tier() {
    let mut p = processor();
    assert!(p.switch_model(ModelType::Balanced));
    assert_eq!(p.app_config.current_model.model, "gemma3:12b");
    assert!(p.rebuild_chat_client);
    let remembered = p.app_config.cache_config.profile_models.as_ref().unwrap();
    assert_eq!(remembered.get("local"), Some(&ModelType::Balanced));
}

#[test]
fn switch_profile_unknown_fails_and_changes_nothing() {
    let mut p = processor();
    let before = snapshot(&p);
    assert!(!p.switch_profile("nowhere"));
    assert_eq!(snapshot(&p), before);
}

#[test]
fn switch_profile_twice_is_a_no_op() {
    let mut p = processor();
    assert!(p.switch_profile("local"));
    let first = snapshot(&p);
    assert!(p.switch_profile("local"));
    assert_eq!(snapshot(&p), first);
    assert_eq!(p.app_config.current_profile.name, "local");
}

#[test]
fn switch_profile_ignores_case_and_restores_tier() {
    let mut p = processor();
    assert!(p.switch_model(ModelType::Balanced));
    assert!(p.switch_profile("cloud"));
    assert_eq!(p.app_config.current_profile.name, "Cloud");
    assert_eq!(p.app_config.current_model.model, "haiku");
    assert!(p.switch_profile("LOCAL"));
    assert_eq!(p.app_config.current_model.model, "gemma3:12b");
    assert_eq!(p.app_config.cache_config.last_profile_name, Some("local".to_string()));
}

#[test]
fn handle_command_reports_missing_model() {
    let mut p = processor();
    match p.handle_command(CommandResult::SwitchModel(ModelType::Deep)) {
        Followup::ModelMissing(t) => assert_eq!(t, ModelType::Deep),
        other => panic!("unexpected {:?}", other),
    }
    assert_eq!(p.app_config.current_model.model, "gemma3:4b");
}

#[test]
fn handle_command_followups() {
    let mut p = processor();
    assert!(matches!(
        p.handle_command(CommandResult::SwitchModel(ModelType::Balanced)),
        Followup::ModelSwitched
    ));
    assert!(matches!(
        p.handle_command(CommandResult::SwitchProfile("nope".to_string())),
        Followup::ProfileMissing(n) if n == "nope"
    ));
    assert!(matches!(
        p.handle_command(CommandResult::SwitchContext(Some("ctx.md".to_string()))),
        Followup::ContextSet(c) if c == "ctx.md"
    ));
    assert_eq!(p.context_file_path, Some("ctx.md".to_string()));
    assert!(matches!(
        p.handle_command(CommandResult::SwitchContext(None)),
        Followup::ContextCleared
    ));
    assert_eq!(p.context_file_path, None);
    assert!(matches!(
        p.handle_command(CommandResult::HandlePrompt("t.md".to_string(), None)),
        Followup::EditPrompt(f) if f == "t.md"
    ));
    assert!(matches!(
        p.handle_command(CommandResult::HandlePrompt("t.md".to_string(), Some("go".to_string()))),
        Followup::RunPrompt(f, u) if f == "t.md" && u == "go"
    ));
    assert!(matches!(
        p.handle_command(CommandResult::SwitchHistory("b.txt".to_string())),
        Followup::OpenHistory(f) if f == "b.txt"
    ));
    assert!(matches!(p.handle_command(CommandResult::Quit), Followup::Nothing));
}

#[test]
fn process_command_dispatches_through_registry() {
    let mut p = processor();
    let registry = create_command_registry(&NameMap::new());
    let command = match UserInput::parse(":MODEL balanced") {
        UserInput::Command(c) => c,
        _ => panic!("Expected Command"),
    };
    let handled = p.process_command(&registry, &command).unwrap();
    assert_eq!(handled.kind, CommandKind::Model);
    assert!(!handled.quit);
    assert!(matches!(handled.followup, Followup::ModelSwitched));
    assert_eq!(p.app_config.current_model.model, "gemma3:12b");

    let quit = match UserInput::parse(":q") {
        UserInput::Command(c) => c,
        _ => panic!("Expected Command"),
    };
    assert!(p.process_command(&registry, &quit).unwrap().quit);

    let unknown = match UserInput::parse(":frobnicate") {
        UserInput::Command(c) => c,
        _ => panic!("Expected Command"),
    };
    let before = snapshot(&p);
    assert!(p.process_command(&registry, &unknown).is_none());
    assert_eq!(snapshot(&p), before);
}

#[test]
fn combine_substitutes_placeholder() {
    assert_eq!(
        CommandProcessor::combine("Summarise: ${{user_prompt}}! Again: ${{user_prompt}}", "x"),
        "Summarise: x! Again: x"
    );
}

#[test]
fn combine_appends_without_placeholder() {
    assert_eq!(CommandProcessor::combine("Template ", "question"), "Template question");
    assert_eq!(CommandProcessor::combine("", "question"), "question");
}

#[test]
fn update_last_history_file_records_path() {
    let mut p = processor();
    p.app_config.update_last_history_file("chat.txt".to_string());
    assert_eq!(p.app_config.cache_config.last_history_file, Some("chat.txt".to_string()));
}

#[test]
fn get_profile_and_maybe_profile() {
    let mut p = processor();
    assert_eq!(p.app_config.get_profile().name, "local");
    assert_eq!(p.app_config.maybe_profile("CLOUD").unwrap().name, "Cloud");
    assert!(p.app_config.maybe_profile("other").is_none());
}

#[test]
fn history_path_prefers_given_then_last() {
    let mut p = processor();
    assert_eq!(p.app_config.history_path(None), None);
    p.app_config.update_last_history_file("old.txt".to_string());
    assert_eq!(p.app_config.history_path(None), Some("old.txt".to_string()));
    assert_eq!(
        p.app_config.history_path(Some("new.txt".to_string())),
        Some("new.txt".to_string())
    );
}
