use cforge::profiles_config::{default_profiles, Model, ModelType, Profile, ProfilesConfig};

fn model(name: &str, model_type: ModelType) -> Model {
    Model {
        model: name.to_string(),
        description: None,
        model_type,
    }
}

fn profile(name: &str, models: Vec<Model>) -> Profile {
    Profile {
        name: name.to_string(),
        provider: "ollama".to_string(),
        models,
    }
}

#[test]
fn test_default_profiles() {
    let config = ProfilesConfig {
        profiles: default_profiles(),
    };

    assert_eq!(config.profiles.len(), 1);
    assert_eq!(config.profiles[0].name, "local");
    assert_eq!(config.profiles[0].provider, "ollama");
    assert_eq!(config.profiles[0].models.len(), 1);
    assert_eq!(config.profiles[0].models[0].model, "gemma3:12b");
    assert_eq!(config.profiles[0].models[0].model_type, ModelType::Balanced);
    assert!(config.profiles[0].models[0].description.is_none());
}

#[test]
fn test_parse_valid_config() {
    let mut fast = model("qwen3:4b", ModelType::Fast);
    fast.description = Some("Fast model".to_string());
    let config = ProfilesConfig {
        profiles: vec![profile(
            "test",
            vec![
                fast,
                model("gemma3:12b", ModelType::Balanced),
                model("mixtral:8x7b", ModelType::Deep),
            ],
        )],
    };
    assert_eq!(config.profiles[0].models.len(), 3);
    assert!(config.validate().is_ok());
}

#[test]
fn test_validate_empty_profiles() {
    let config = ProfilesConfig { profiles: vec![] };
    assert_eq!(config.validate().unwrap_err(), "No profiles defined");
}

#[test]
fn test_validate_duplicate_profile_names() {
    let config = ProfilesConfig {
        profiles: vec![
            profile("test", vec![model("model1", ModelType::Fast)]),
            profile("test", vec![model("model2", ModelType::Fast)]),
        ],
    };
    assert_eq!(config.validate().unwrap_err(), "Profile name test is not unique");
}

#[test]
fn test_validate_profile_no_models() {
    let config = ProfilesConfig {
        profiles: vec![profile("test", vec![])],
    };
    assert_eq!(config.validate().unwrap_err(), "Profile test has no models");
}

#[test]
fn test_validate_duplicate_model_types() {
    let config = ProfilesConfig {
        profiles: vec![profile(
            "test",
            vec![model("model1", ModelType::Fast), model("model2", ModelType::Fast)],
        )],
    };
    assert_eq!(
        config.validate().unwrap_err(),
        "Profile test has a duplicate model type: fast"
    );
}

#[test]
fn test_validate_default_model_type() {
    assert_eq!(cforge::profiles_config::default_model_type(), ModelType::Balanced);
}

#[test]
fn validate_reports_first_fault_in_order() {
    let config = ProfilesConfig {
        profiles: vec![
            profile("a", vec![model("m", ModelType::Deep)]),
            profile("b", vec![model("x", ModelType::Deep), model("y", ModelType::Deep)]),
            profile("a", vec![]),
        ],
    };
    assert_eq!(
        config.validate().unwrap_err(),
        "Profile b has a duplicate model type: deep"
    );
}

#[test]
fn model_type_from_str_any_case() {
    assert_eq!(ModelType::from_str("FAST"), Ok(ModelType::Fast));
    assert_eq!(ModelType::from_str("Balanced"), Ok(ModelType::Balanced));
    assert_eq!(ModelType::from_str("deep"), Ok(ModelType::Deep));
    assert_eq!(
        ModelType::from_str("quick"),
        Err("Invalid model type: quick".to_string())
    );
    assert_eq!(ModelType::Deep.as_str(), "deep");
}

#[test]
fn model_for_tier_falls_back_to_first_model() {
    let p = profile(
        "local",
        vec![model("small", ModelType::Fast), model("mid", ModelType::Balanced)],
    );
    assert_eq!(p.get_model(&ModelType::Balanced).model, "mid");
    assert_eq!(p.get_model(&ModelType::Deep).model, "small");
    assert!(p.maybe_model(&ModelType::Deep).is_none());
    assert_eq!(p.maybe_model(&ModelType::Fast).unwrap().model, "small");
}
