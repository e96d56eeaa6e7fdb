use ask::command::{
    ConfigModelArgs, ConfigProviderArgs, ConfigSubcommand, ConfigTimeoutArgs, PresetRemoveArgs,
    PresetSetArgs, PresetSubcommand,
};
use ask::render::{compose_markdown, scroll_down, scroll_up};
use ask::settings::{
    apply_config_command, apply_preset_command, join_words, validate_ai_settings, PresetOutcome,
    Presets, Settings,
};
use ask::{AIModel, AIProvider, ConfigError};

fn empty_settings() -> Settings {
    Settings {
        provider: None,
        model: None,
        timeout: None,
        presets: None,
        deepseek_key: None,
        grok_key: None,
        qwen_key: None,
    }
}

fn valid_settings() -> Settings {
    Settings {
        provider: Some(AIProvider::DeepSeek),
        model: Some(AIModel::DeepSeekChat),
        timeout: Some(60),
        presets: None,
        deepseek_key: Some("SECRET-REDACTED".to_string()),
        grok_key: None,
        qwen_key: None,
    }
}

#[test]
fn presets_store_lookup_and_remove() {
    let mut p = Presets::new();
    assert!(p.is_empty());
    p.set("rust".to_string(), "about rust".to_string());
    p.set("go".to_string(), "about go".to_string());
    assert_eq!(p.len(), 2);
    assert_eq!(p.get("rust"), Some("about rust".to_string()));
    assert_eq!(p.get("go"), Some("about go".to_string()));
    assert_eq!(p.get("zig"), None);
    p.set("rust".to_string(), "replaced".to_string());
    assert_eq!(p.len(), 2);
    assert_eq!(p.get("rust"), Some("replaced".to_string()));
    assert_eq!(p.remove("rust"), Some("replaced".to_string()));
    assert_eq!(p.get("rust"), None);
    assert_eq!(p.remove("rust"), None);
    assert_eq!(p.len(), 1);
}

#[test]
fn preset_entries_can_be_listed() {
    let mut p = Presets::new();
    p.set("a".to_string(), "one".to_string());
    p.set("b".to_string(), "two".to_string());
    let mut seen = Vec::new();
    for i in 0..p.len() {
        seen.push(p.entry_at(i));
    }
    assert!(seen.contains(&("a".to_string(), "one".to_string())));
    assert!(seen.contains(&("b".to_string(), "two".to_string())));
}

#[test]
fn validation_reports_each_missing_piece() {
    let mut s = empty_settings();
    assert!(matches!(validate_ai_settings(&s), Err(ConfigError::ProviderNotSet)));
    s.provider = Some(AIProvider::DeepSeek);
    assert!(matches!(validate_ai_settings(&s), Err(ConfigError::ModelNotSet)));
    s.model = Some(AIModel::DeepSeekChat);
    assert!(matches!(
        validate_ai_settings(&s),
        Err(ConfigError::ApiKeyNotSet(AIProvider::DeepSeek))
    ));
    s.deepseek_key = Some("".to_string());
    assert!(matches!(
        validate_ai_settings(&s),
        Err(ConfigError::ApiKeyNotSet(AIProvider::DeepSeek))
    ));
    s.deepseek_key = Some("SECRET-REDACTED".to_string());
    assert!(matches!(validate_ai_settings(&s), Ok(())));
    s.model = Some(AIModel::Grok3);
    assert!(matches!(
        validate_ai_settings(&s),
        Err(ConfigError::ModelNotSupported(AIProvider::DeepSeek))
    ));
}

#[test]
fn validation_checks_the_qwen_models() {
    let mut s = empty_settings();
    s.provider = Some(AIProvider::Qwen);
    s.model = Some(AIModel::QwenPlus);
    s.qwen_key = Some("SECRET-REDACTED".to_string());
    assert!(matches!(validate_ai_settings(&s), Ok(())));
    s.model = Some(AIModel::QwenFlash);
    assert!(matches!(validate_ai_settings(&s), Ok(())));
    s.model = Some(AIModel::DeepSeekChat);
    assert!(matches!(
        validate_ai_settings(&s),
        Err(ConfigError::ModelNotSupported(AIProvider::Qwen))
    ));
}

#[test]
fn config_error_messages_match() {
    assert_eq!(ConfigError::ProviderNotSet.message(), "AI provider is not set");
    assert_eq!(ConfigError::ModelNotSet.message(), "AI model is not set");
    assert_eq!(
        ConfigError::ApiKeyNotSet(AIProvider::DeepSeek).message(),
        "DeepSeek API key is not set"
    );
    assert_eq!(
        ConfigError::ModelNotSupported(AIProvider::DeepSeek).message(),
        "DeepSeek provider only supports deepseek-chat model"
    );
}

#[test]
fn config_commands_set_their_fields() {
    let mut s = empty_settings();
    apply_config_command(
        &mut s,
        &ConfigSubcommand::Provider(ConfigProviderArgs { provider: AIProvider::Qwen }),
    );
    assert!(matches!(s.provider, Some(AIProvider::Qwen)));
    apply_config_command(
        &mut s,
        &ConfigSubcommand::Model(ConfigModelArgs { model: AIModel::QwenPlus }),
    );
    assert!(matches!(s.model, Some(AIModel::QwenPlus)));
    apply_config_command(&mut s, &ConfigSubcommand::Timeout(ConfigTimeoutArgs { timeout: 90 }));
    assert_eq!(s.timeout, Some(90));
    apply_config_command(&mut s, &ConfigSubcommand::Show);
    assert!(matches!(s.provider, Some(AIProvider::Qwen)));
    assert_eq!(s.timeout, Some(90));
}

#[test]
fn preset_commands_join_store_and_remove() {
    let mut s = empty_settings();
    let outcome = apply_preset_command(
        &mut s,
        PresetSubcommand::Put(PresetSetArgs {
            name: "rust".to_string(),
            prompt: vec!["You".to_string(), "are".to_string(), "an".to_string(), "expert".to_string()],
        }),
    );
    match outcome {
        PresetOutcome::Stored(j) => assert_eq!(j, "You are an expert"),
        _ => panic!("storing must report the joined prompt"),
    }
    let ps = s.presets.as_ref().unwrap();
    assert_eq!(ps.get("rust"), Some("You are an expert".to_string()));

    let outcome = apply_preset_command(&mut s, PresetSubcommand::List);
    assert!(matches!(outcome, PresetOutcome::Listed));

    let outcome = apply_preset_command(
        &mut s,
        PresetSubcommand::Remove(PresetRemoveArgs { name: "rust".to_string() }),
    );
    match outcome {
        PresetOutcome::Removed(p) => assert_eq!(p, Some("You are an expert".to_string())),
        _ => panic!("removing must report the removed prompt"),
    }
    let outcome = apply_preset_command(
        &mut s,
        PresetSubcommand::Remove(PresetRemoveArgs { name: "rust".to_string() }),
    );
    match outcome {
        PresetOutcome::Removed(p) => assert_eq!(p, None),
        _ => panic!("removing an unknown name must report nothing"),
    }
}

#[test]
fn join_words_uses_single_spaces() {
    assert_eq!(join_words(&Vec::new()), "");
    assert_eq!(join_words(&vec!["one".to_string()]), "one");
    assert_eq!(join_words(&vec!["a".to_string(), "b".to_string(), "c".to_string()]), "a b c");
}

#[test]
fn should_persist_mirrors_the_original_rule() {
    let s = valid_settings();
    assert!(s.should_persist(true));
    assert!(s.should_persist(false));
    let full = Settings {
        provider: Some(AIProvider::DeepSeek),
        model: Some(AIModel::DeepSeekChat),
        timeout: Some(60),
        presets: Some(Presets::new()),
        deepseek_key: Some("SECRET-REDACTED".to_string()),
        grok_key: Some("SECRET-REDACTED".to_string()),
        qwen_key: Some("SECRET-REDACTED".to_string()),
    };
    assert!(full.should_persist(true));
    assert!(!full.should_persist(false));
}

#[test]
fn markdown_page_frames_question_and_reply() {
    let page = compose_markdown("why?", "because.");
    assert_eq!(page, "# [Question]\n\nwhy?\n\n---\n\n# [Response]\n\nbecause.");
}

#[test]
fn scrolling_stays_in_bounds() {
    assert_eq!(scroll_up(0), 0);
    assert_eq!(scroll_up(3), 2);
    assert_eq!(scroll_down(3), 4);
    assert_eq!(scroll_down(u16::MAX), u16::MAX);
}

#[test]
fn provider_names_match() {
    assert_eq!(AIProvider::DeepSeek.name(), "deepseek");
    assert_eq!(AIProvider::Grok.name(), "grok");
    assert_eq!(AIProvider::Qwen.name(), "qwen");
}
