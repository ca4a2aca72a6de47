use glowbot::config::{
    basic_config, ChatConfig, CodexConfig, ConfigError, LlmProvider, McpServer,
};

fn codex(model: &str) -> CodexConfig {
    CodexConfig {
        model: model.into(),
        auth_file: "/tmp/codex-auth.json".into(),
        reasoning_effort: None,
        base_url: "https://chatgpt.com/backend-api".into(),
    }
}

#[test]
fn validation_errors_in_order() {
    let mut config = basic_config();
    assert_eq!(config.validate(), Ok(()));

    config.provider = LlmProvider::Codex;
    assert_eq!(config.validate(), Err(ConfigError::MissingCodexConfig));
    assert!(ConfigError::MissingCodexConfig.message().contains("codex configuration"));

    let mut config = basic_config();
    config.chats.insert(
        "-1".into(),
        ChatConfig { provider: Some(LlmProvider::Codex), ..Default::default() },
    );
    assert_eq!(config.validate(), Err(ConfigError::MissingCodexConfigForChat));
    assert!(ConfigError::MissingCodexConfigForChat
        .message()
        .contains("any chat uses provider codex"));

    let mut config = basic_config();
    config.provider = LlmProvider::Codex;
    config.codex = Some(codex(""));
    assert_eq!(config.validate(), Err(ConfigError::EmptyCodexModel));
    assert!(ConfigError::EmptyCodexModel.message().contains("codex.model"));

    let mut config = basic_config();
    config.openrouter.api_key = String::new();
    assert_eq!(config.validate(), Err(ConfigError::MissingOpenRouterApiKey));
    assert!(ConfigError::MissingOpenRouterApiKey.message().contains("api_key"));

    let mut config = basic_config();
    config.openrouter.model = String::new();
    assert_eq!(config.validate(), Err(ConfigError::MissingOpenRouterModel));
    assert!(ConfigError::MissingOpenRouterModel.message().contains("openrouter.model"));
}

#[test]
fn codex_only_configs_need_no_openrouter_key() {
    let mut config = basic_config();
    config.provider = LlmProvider::Codex;
    config.codex = Some(codex("gpt-5.4"));
    config.openrouter.api_key = String::new();
    config.openrouter.model = String::new();
    assert_eq!(config.validate(), Ok(()));
    assert!(!config.uses_openrouter());
    assert_eq!(config.default_model(), "gpt-5.4");
    // an embedding model still calls OpenRouter
    config.openrouter.embedding_model = Some("embed".into());
    assert_eq!(config.validate(), Err(ConfigError::MissingOpenRouterApiKey));
}

#[test]
fn redaction_hides_the_secrets_only() {
    let mut config = basic_config();
    config.codex = Some(codex("gpt-5.4"));
    config.mcp_servers.push(McpServer {
        name: "home".into(),
        transport: "http".into(),
        url: "http://h".into(),
        api_key: Some("secret".into()),
    });
    config.mcp_servers.push(McpServer {
        name: "open".into(),
        transport: "http".into(),
        url: "http://o".into(),
        api_key: None,
    });
    let r = config.redacted();
    assert_eq!(r.telegram_token, "[REDACTED]");
    assert_eq!(r.openrouter.api_key, "[REDACTED]");
    assert_eq!(r.openrouter.model, "test/model");
    assert_eq!(r.codex.as_ref().unwrap().auth_file, "[REDACTED]");
    assert_eq!(r.codex.as_ref().unwrap().model, "gpt-5.4");
    assert_eq!(r.mcp_servers[0].api_key.as_deref(), Some("[REDACTED]"));
    assert_eq!(r.mcp_servers[0].url, "http://h");
    assert_eq!(r.mcp_servers[1].api_key, None);
    assert_eq!(r.media_dir, "/media");
}
