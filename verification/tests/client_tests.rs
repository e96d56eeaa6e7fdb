use ask::ai::{
    check_status, deepseek, deepseek_api_url, effective_timeout, openai, qwen, qwen_api_url,
    single_reply, stream_reply,
};
use ask::jsonbody::build_request_body;
use ask::messages::{build_message_list, normalize_user_messages, system_prompt, Message, Role};
use ask::question::{build_question_texts, plan_question};
use ask::settings::{Presets, Settings};
use ask::{AIModel, AIProvider, ProviderError};

fn base_settings() -> Settings {
    Settings {
        provider: Some(AIProvider::DeepSeek),
        model: Some(AIModel::DeepSeekChat),
        timeout: Some(30),
        presets: None,
        deepseek_key: Some("SECRET-REDACTED".to_string()),
        grok_key: None,
        qwen_key: None,
    }
}

#[test]
fn message_list_has_system_first_and_keeps_order() {
    let user = vec!["first".to_string(), "second".to_string(), "third".to_string()];
    let list = build_message_list(&user);
    assert_eq!(list.len(), 4);
    assert!(matches!(list[0].role, Role::System));
    assert_eq!(list[0].content, system_prompt());
    for (i, want) in ["first", "second", "third"].iter().enumerate() {
        assert!(matches!(list[i + 1].role, Role::User));
        assert_eq!(&list[i + 1].content, want);
    }
}

#[test]
fn normalization_trims_and_drops_blank_entries() {
    let raw = vec![
        "  hello  ".to_string(),
        "   ".to_string(),
        "".to_string(),
        "\tworld\n".to_string(),
    ];
    let n = normalize_user_messages(&raw);
    assert_eq!(n, vec!["hello".to_string(), "world".to_string()]);
}

#[test]
fn request_body_is_exact_json() {
    let messages = vec![
        Message { role: Role::System, content: "sys".to_string() },
        Message { role: Role::User, content: "hi".to_string() },
    ];
    let body = build_request_body("deepseek-chat", &messages, true);
    assert_eq!(
        body,
        "{\"model\":\"deepseek-chat\",\"messages\":[{\"role\":\"system\",\"content\":\"sys\"},{\"role\":\"user\",\"content\":\"hi\"}],\"stream\":true}"
    );
}

#[test]
fn request_body_escapes_contents() {
    let messages = vec![Message {
        role: Role::User,
        content: "a\"b\\c\nd\re\tf\u{1}g".to_string(),
    }];
    let body = build_request_body("m", &messages, false);
    assert_eq!(
        body,
        "{\"model\":\"m\",\"messages\":[{\"role\":\"user\",\"content\":\"a\\\"b\\\\c\\nd\\re\\tf\\u0001g\"}],\"stream\":false}"
    );
}

#[test]
fn openai_plan_carries_url_key_timeout_and_body() {
    let messages = vec!["hi".to_string()];
    let plan = openai(&messages, "deepseek-chat", None, "https://example.invalid/chat", "k1");
    assert_eq!(plan.url, "https://example.invalid/chat");
    assert_eq!(plan.api_key, "k1");
    assert!(plan.stream);
    assert_eq!(plan.timeout_secs, 60);
    let expected = format!(
        "{{\"model\":\"deepseek-chat\",\"messages\":[{{\"role\":\"system\",\"content\":\"{}\"}},{{\"role\":\"user\",\"content\":\"hi\"}}],\"stream\":true}}",
        system_prompt()
    );
    assert_eq!(plan.body, expected);
}

#[test]
fn deepseek_and_qwen_use_their_endpoints() {
    let messages = vec!["q".to_string()];
    let d = deepseek(&messages, "key", "deepseek-chat", Some(5));
    assert_eq!(d.url, "https://api.deepseek.com/chat/completions");
    assert_eq!(d.url, deepseek_api_url());
    assert_eq!(d.timeout_secs, 5);
    let q = qwen(&messages, "key", "qwen-plus", None);
    assert_eq!(q.url, "https://dashscope.aliyuncs.com/compatible-mode/v1/chat/completions");
    assert_eq!(q.url, qwen_api_url());
    assert_eq!(q.timeout_secs, 60);
}

#[test]
fn default_timeout_is_sixty_seconds() {
    assert_eq!(effective_timeout(None), 60);
    assert_eq!(effective_timeout(Some(7)), 7);
}

#[test]
fn model_names_match_the_wire() {
    assert_eq!(AIModel::DeepSeekChat.name(), "deepseek-chat");
    assert_eq!(AIModel::Grok3.name(), "grok-3");
    assert_eq!(AIModel::QwenPlus.name(), "qwen-plus");
    assert_eq!(AIModel::QwenFlash.name(), "qwen-flash");
}

#[test]
fn non_streaming_body_yields_reply() {
    let r = single_reply(200, "{\"choices\":[{\"message\":{\"content\":\"Hi\"}}]}".to_string());
    match r {
        Ok(s) => assert_eq!(s, "Hi"),
        Err(_) => panic!("expected a reply"),
    }
}

#[test]
fn non_streaming_body_without_reply_is_empty_reply() {
    let r = single_reply(200, "{\"choices\":[{\"message\":{}}]}".to_string());
    assert!(matches!(r, Err(ProviderError::EmptyReply)));
    let r2 = single_reply(200, "not json".to_string());
    assert!(matches!(r2, Err(ProviderError::EmptyReply)));
}

#[test]
fn status_401_surfaces_as_http_status() {
    let r = check_status(401, "unauthorized".to_string());
    match r {
        Err(ProviderError::HttpStatus(code, body)) => {
            assert_eq!(code, 401);
            assert_eq!(body, "unauthorized");
        },
        _ => panic!("a 401 must surface as HttpStatus"),
    }
    let r2 = stream_reply(401, "denied".to_string());
    match r2 {
        Err(ProviderError::HttpStatus(code, body)) => {
            assert_eq!(code, 401);
            assert_eq!(body, "denied");
        },
        _ => panic!("a 401 must surface as HttpStatus"),
    }
}

#[test]
fn successful_stream_reply_decodes_the_body() {
    let body = "data: {\"choices\":[{\"delta\":{\"content\":\"He\"}}]}\n\ndata: {\"choices\":[{\"delta\":{\"content\":\"llo\"}}]}\n\ndata: [DONE]\n\n";
    let r = stream_reply(200, body.to_string());
    match r {
        Ok(s) => assert_eq!(s, "Hello"),
        Err(_) => panic!("a success status must decode"),
    }
}

#[test]
fn question_without_preset_joins_preset_word_and_question() {
    let texts = build_question_texts(&"how".to_string(), &"are you".to_string(), &None);
    assert_eq!(texts, vec!["how are you".to_string()]);
}

#[test]
fn question_with_preset_prompt_keeps_both_entries() {
    let prompt = Some("You are a Rust expert.".to_string());
    let texts = build_question_texts(&"rust".to_string(), &" explain ownership ".to_string(), &prompt);
    assert_eq!(
        texts,
        vec!["You are a Rust expert.".to_string(), "explain ownership".to_string()]
    );
}

#[test]
fn empty_preset_prompt_falls_back_to_joining() {
    let prompt = Some("".to_string());
    let texts = build_question_texts(&"hello".to_string(), &"world".to_string(), &prompt);
    assert_eq!(texts, vec!["hello world".to_string()]);
}

#[test]
fn plan_question_builds_the_deepseek_request() {
    let mut settings = base_settings();
    let mut presets = Presets::new();
    presets.set("rust".to_string(), "You are a Rust expert.".to_string());
    settings.presets = Some(presets);
    let plan = plan_question(&"rust".to_string(), &"tell me".to_string(), &settings)
        .unwrap_or_else(|_| panic!("valid settings must plan"));
    assert_eq!(plan.url, "https://api.deepseek.com/chat/completions");
    assert_eq!(plan.api_key, "SECRET-REDACTED");
    assert_eq!(plan.timeout_secs, 30);
    assert!(plan.stream);
    let expected = format!(
        "{{\"model\":\"deepseek-chat\",\"messages\":[{{\"role\":\"system\",\"content\":\"{}\"}},{{\"role\":\"user\",\"content\":\"You are a Rust expert.\"}},{{\"role\":\"user\",\"content\":\"tell me\"}}],\"stream\":true}}",
        system_prompt()
    );
    assert_eq!(plan.body, expected);
}

#[test]
fn plan_question_reports_missing_provider() {
    let mut settings = base_settings();
    settings.provider = None;
    let r = plan_question(&"".to_string(), &"q".to_string(), &settings);
    match r {
        Err(e) => assert_eq!(e.message(), "AI provider is not set"),
        Ok(_) => panic!("missing provider must fail"),
    }
}
