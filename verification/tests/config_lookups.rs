#![allow(unused_imports)]
use glowbot::config::{
    basic_config, ChatConfig, CodexConfig, ConversationConfig, DatabaseConfig, DmConfig,
    EmbeddingConfig, InteractionMode, LlmProvider,
};

#[test]
fn config_tests_test_chat_config_defaults() {
    let config = basic_config();
    let chat = config.chat_config("-123");
    assert_eq!(chat.interaction_mode, InteractionMode::MentionOnly);
    assert!(chat.model.is_none());
    assert!(chat.interaction_whitelist.is_empty());
    assert!(chat.command_whitelist.is_empty());
    assert!(chat.system_prompt.is_empty());
}

#[test]
fn config_tests_test_chat_config_override() {
    let mut config = basic_config();
    let chat = ChatConfig {
        interaction_mode: InteractionMode::EveryMessage,
        model: Some("custom/model".into()),
        ..Default::default()
    };
    config.chats.insert("-123".into(), chat);
    let loaded = config.chat_config("-123");
    assert_eq!(loaded.interaction_mode, InteractionMode::EveryMessage);
    assert_eq!(loaded.model.unwrap(), "custom/model");
}

#[test]
fn config_tests_test_model_for_chat() {
    let mut config = basic_config();
    // default
    assert_eq!(config.model_for_chat("-123"), "test/model");
    // override
    config.chats.insert(
        "-123".into(),
        ChatConfig {
            model: Some("custom/model".into()),
            ..Default::default()
        },
    );
    assert_eq!(config.model_for_chat("-123"), "custom/model");
}

#[test]
fn config_tests_test_bash_enabled_global_default() {
    let config = basic_config();
    assert!(config.is_bash_enabled("-123"));
    assert!(config.is_bash_enabled("456"));
}

#[test]
fn config_tests_test_bash_enabled_per_chat_override_false() {
    let mut config = basic_config();
    config.chats.insert(
        "-123".into(),
        ChatConfig {
            bash_enabled: Some(false),
            ..Default::default()
        },
    );
    assert!(!config.is_bash_enabled("-123"));
    assert!(config.is_bash_enabled("-999")); // uses global true
}

#[test]
fn config_tests_test_bash_enabled_per_chat_override_true_global_false() {
    let mut config = basic_config();
    config.bash_enabled = false;
    config.chats.insert(
        "-123".into(),
        ChatConfig {
            bash_enabled: Some(true),
            ..Default::default()
        },
    );
    assert!(config.is_bash_enabled("-123"));
    assert!(!config.is_bash_enabled("-999")); // uses global false
}

#[test]
fn config_tests_test_heartbeat_per_chat_override_and_global_fallback() {
    let mut config = basic_config();
    config.heartbeat_interval_minutes = 90;
    config.chats.insert(
        "-123".into(),
        ChatConfig {
            heartbeat_interval_minutes: Some(30),
            ..Default::default()
        },
    );
    assert_eq!(config.heartbeat_interval("-123"), Some(30));
    assert_eq!(config.heartbeat_interval("-999"), Some(90));
}

#[test]
fn config_tests_test_dm_config_defaults() {
    let dm = DmConfig::default();
    assert!(dm.model.is_none());
    assert!(!dm.commands_enabled);
    assert!(dm.system_prompt.is_empty());
    assert!(dm.heartbeat_interval_minutes.is_none());
    assert!(dm.bash_enabled.is_none());
}

#[test]
fn config_tests_test_model_for_dm() {
    let mut config = basic_config();
    // DM without entry uses global default
    assert_eq!(config.model_for_chat("123"), "test/model");
    // DM with entry uses its model
    let mut dm = DmConfig::default();
    dm.model = Some("dm-model".into());
    config.dms.insert("123".into(), dm);
    assert_eq!(config.model_for_chat("123"), "dm-model");
}

#[test]
fn config_tests_test_bash_enabled_for_dm() {
    let mut config = basic_config();
    // DM without entry uses global
    assert!(config.is_bash_enabled("456"));
    // DM with bash_enabled: false
    let mut dm = DmConfig::default();
    dm.bash_enabled = Some(false);
    config.dms.insert("456".into(), dm);
    assert!(!config.is_bash_enabled("456"));
}

#[test]
fn config_tests_test_heartbeat_for_dm() {
    let mut config = basic_config();
    config.heartbeat_interval_minutes = 60;
    // DM without entry uses global
    assert_eq!(config.heartbeat_interval("789"), Some(60));
    // DM with override
    let mut dm = DmConfig::default();
    dm.heartbeat_interval_minutes = Some(15);
    config.dms.insert("789".into(), dm);
    assert_eq!(config.heartbeat_interval("789"), Some(15));
}

#[test]
fn config_tests_test_heartbeat_for_dm_disabled() {
    let mut config = basic_config();
    let mut dm = DmConfig::default();
    dm.heartbeat_interval_minutes = Some(0);
    config.dms.insert("111".into(), dm);
    assert_eq!(config.heartbeat_interval("111"), None);
}

#[test]
fn config_tests_test_dm_config_found_and_not_found() {
    let mut config = basic_config();
    assert!(config.dm_config("123").is_none());
    config.dms.insert("123".into(), DmConfig::default());
    assert!(config.dm_config("123").is_some());
}

#[test]
fn config_tests_test_embedding_search_limit_default() {
    let config = basic_config();
    assert_eq!(config.embedding.search_limit, 1000);
}

#[test]
fn config_tests_test_embedding_config_defaults() {
    let ec = EmbeddingConfig::default();
    assert_eq!(ec.max_chars, 0);
    assert!(!ec.allow_split);
    assert_eq!(ec.search_limit, 1000);
}

#[test]
fn config_tests_test_conversation_config_default() {
    let conv = ConversationConfig::default();
    assert_eq!(conv.recent_messages_window_size, 20);
    assert!(!conv.include_reasoning);
}

#[test]
fn config_tests_test_database_config_default() {
    let db = DatabaseConfig::default();
    assert!(!db.store_reasoning);
}

#[test]
fn test_config_defaults_db_store_reasoning_false() {
    let config = basic_config();
    assert!(!config.db.store_reasoning);
}

#[test]
fn config_tests_test_is_mcp_server_allowed_default() {
    let config = basic_config();
    // No blacklist set — all servers allowed for group chats
    assert!(config.is_mcp_server_allowed("-123", "homeassistant"));
    assert!(config.is_mcp_server_allowed("-456", "anything"));
}

#[test]
fn config_tests_test_is_mcp_server_allowed_blacklisted() {
    let mut config = basic_config();
    config.chats.insert(
        "-123".into(),
        ChatConfig {
            mcp_blacklist: vec!["homeassistant".into()],
            ..Default::default()
        },
    );
    assert!(!config.is_mcp_server_allowed("-123", "homeassistant"));
    // Other servers still allowed
    assert!(config.is_mcp_server_allowed("-123", "download-server"));
    // Other chats not affected
    assert!(config.is_mcp_server_allowed("-456", "homeassistant"));
}

#[test]
fn config_tests_test_is_mcp_server_allowed_dm_always_allowed() {
    let mut config = basic_config();
    config.chats.insert(
        "12345".into(),
        ChatConfig {
            mcp_blacklist: vec!["homeassistant".into()],
            ..Default::default()
        },
    );
    // DM chats (positive chat_id) ignore the blacklist
    assert!(config.is_mcp_server_allowed("12345", "homeassistant"));
}

#[test]
fn config_tests_test_heartbeat_recent_messages_window_size_default() {
    let config = basic_config();
    // None → falls back to recent_messages_window_size (20)
    assert_eq!(config.heartbeat_recent_messages_window_size(), 20);
    assert_eq!(
        config.conversation.heartbeat_recent_messages_window_size,
        None
    );
}

#[test]
fn config_tests_test_heartbeat_recent_messages_window_size_set() {
    let mut config = basic_config();
    config.conversation.heartbeat_recent_messages_window_size = Some(5);
    assert_eq!(config.heartbeat_recent_messages_window_size(), 5);
}

#[test]
fn config_tests_test_heartbeat_recent_messages_window_size_set_to_zero() {
    let mut config = basic_config();
    config.conversation.heartbeat_recent_messages_window_size = Some(0);
    assert_eq!(config.heartbeat_recent_messages_window_size(), 0);
}

#[test]
fn config_tests_test_image_fallback_model_for_group_no_override() {
    let mut config = basic_config();
    config.openrouter.image_fallback_model = Some("global-img-fb".into());
    assert_eq!(
        config.image_fallback_model_for_chat("-123"),
        Some("global-img-fb")
    );
}

#[test]
fn config_tests_test_image_fallback_model_for_group_override() {
    let mut config = basic_config();
    config.openrouter.image_fallback_model = Some("global-img-fb".into());
    config.chats.insert(
        "-123".into(),
        ChatConfig {
            image_fallback_model: Some("chat-img-fb".into()),
            ..Default::default()
        },
    );
    assert_eq!(
        config.image_fallback_model_for_chat("-123"),
        Some("chat-img-fb")
    );
    // Other chat uses global
    assert_eq!(
        config.image_fallback_model_for_chat("-999"),
        Some("global-img-fb")
    );
}

#[test]
fn config_tests_test_image_fallback_model_for_dm_no_override() {
    let mut config = basic_config();
    config.openrouter.image_fallback_model = Some("global-img-fb".into());
    // DM without config entry → uses global
    assert_eq!(
        config.image_fallback_model_for_chat("123"),
        Some("global-img-fb")
    );
}

#[test]
fn config_tests_test_image_fallback_model_for_dm_override() {
    let mut config = basic_config();
    config.openrouter.image_fallback_model = Some("global-img-fb".into());
    config.dms.insert(
        "123".into(),
        DmConfig {
            image_fallback_model: Some("dm-img-fb".into()),
            ..Default::default()
        },
    );
    assert_eq!(
        config.image_fallback_model_for_chat("123"),
        Some("dm-img-fb")
    );
}

#[test]
fn config_tests_test_image_fallback_model_none_global() {
    let config = basic_config();
    assert_eq!(config.image_fallback_model_for_chat("-123"), None);
    assert_eq!(config.image_fallback_model_for_chat("456"), None);
}

#[test]
fn config_tests_test_audio_fallback_model_for_group_no_override() {
    let mut config = basic_config();
    config.openrouter.audio_fallback_model = Some("global-audio-fb".into());
    assert_eq!(
        config.audio_fallback_model_for_chat("-123"),
        Some("global-audio-fb")
    );
}

#[test]
fn config_tests_test_audio_fallback_model_for_group_override() {
    let mut config = basic_config();
    config.openrouter.audio_fallback_model = Some("global-audio-fb".into());
    config.chats.insert(
        "-123".into(),
        ChatConfig {
            audio_fallback_model: Some("chat-audio-fb".into()),
            ..Default::default()
        },
    );
    assert_eq!(
        config.audio_fallback_model_for_chat("-123"),
        Some("chat-audio-fb")
    );
    assert_eq!(
        config.audio_fallback_model_for_chat("-999"),
        Some("global-audio-fb")
    );
}

#[test]
fn config_tests_test_audio_fallback_model_for_dm_override() {
    let mut config = basic_config();
    config.openrouter.audio_fallback_model = Some("global-audio-fb".into());
    config.dms.insert(
        "123".into(),
        DmConfig {
            audio_fallback_model: Some("dm-audio-fb".into()),
            ..Default::default()
        },
    );
    assert_eq!(
        config.audio_fallback_model_for_chat("123"),
        Some("dm-audio-fb")
    );
}

#[test]
fn config_tests_test_audio_fallback_model_none_global() {
    let config = basic_config();
    assert_eq!(config.audio_fallback_model_for_chat("-123"), None);
}

#[test]
fn config_tests_test_image_gen_model_for_group_no_override() {
    let mut config = basic_config();
    config.openrouter.image_gen_model = Some("global-img-gen".into());
    assert_eq!(
        config.image_gen_model_for_chat("-123"),
        Some("global-img-gen")
    );
}

#[test]
fn config_tests_test_image_gen_model_for_group_override() {
    let mut config = basic_config();
    config.openrouter.image_gen_model = Some("global-img-gen".into());
    config.chats.insert(
        "-123".into(),
        ChatConfig {
            image_gen_model: Some("chat-img-gen".into()),
            ..Default::default()
        },
    );
    assert_eq!(
        config.image_gen_model_for_chat("-123"),
        Some("chat-img-gen")
    );
    assert_eq!(
        config.image_gen_model_for_chat("-999"),
        Some("global-img-gen")
    );
}

#[test]
fn config_tests_test_image_gen_model_for_dm_override() {
    let mut config = basic_config();
    config.openrouter.image_gen_model = Some("global-img-gen".into());
    config.dms.insert(
        "123".into(),
        DmConfig {
            image_gen_model: Some("dm-img-gen".into()),
            ..Default::default()
        },
    );
    assert_eq!(
        config.image_gen_model_for_chat("123"),
        Some("dm-img-gen")
    );
}

#[test]
fn config_tests_test_image_gen_model_none_global() {
    let config = basic_config();
    assert_eq!(config.image_gen_model_for_chat("-123"), None);
    assert_eq!(config.image_gen_model_for_chat("456"), None);
}

#[test]
fn config_tests_test_advice_model_default_none() {
    let config = basic_config();
    assert!(config.openrouter.advice_model.is_none());
}

#[test]
fn config_tests_test_advice_model_for_group_no_override() {
    let mut config = basic_config();
    config.openrouter.advice_model = Some("global-advice".into());
    assert_eq!(config.advice_model_for_chat("-123"), Some("global-advice"));
}

#[test]
fn config_tests_test_advice_model_for_group_override() {
    let mut config = basic_config();
    config.openrouter.advice_model = Some("global-advice".into());
    config.chats.insert(
        "-123".into(),
        ChatConfig {
            advice_model: Some("chat-advice".into()),
            ..Default::default()
        },
    );
    assert_eq!(config.advice_model_for_chat("-123"), Some("chat-advice"));
    assert_eq!(config.advice_model_for_chat("-999"), Some("global-advice"));
}

#[test]
fn config_tests_test_advice_model_for_dm_override() {
    let mut config = basic_config();
    config.openrouter.advice_model = Some("global-advice".into());
    config.dms.insert(
        "123".into(),
        DmConfig {
            advice_model: Some("dm-advice".into()),
            ..Default::default()
        },
    );
    assert_eq!(config.advice_model_for_chat("123"), Some("dm-advice"));
}

#[test]
fn config_tests_test_advice_model_for_dm_no_override() {
    let mut config = basic_config();
    config.openrouter.advice_model = Some("global-advice".into());
    // DM without entry → uses global
    assert_eq!(config.advice_model_for_chat("456"), Some("global-advice"));
}

#[test]
fn config_tests_test_advice_model_none_global() {
    let config = basic_config();
    assert_eq!(config.advice_model_for_chat("-123"), None);
    assert_eq!(config.advice_model_for_chat("456"), None);
}

#[test]
fn config_tests_test_conversation_advice_config_defaults() {
    let conv = ConversationConfig::default();
    assert_eq!(conv.advice_recent_messages_window_size, 5);
    assert!(!conv.advice_include_reasoning);
}

#[test]
fn config_tests_advanced_test_conversation_config_default() {
    let conv = ConversationConfig::default();
    assert_eq!(conv.recent_messages_window_size, 20);
}

#[test]
fn config_tests_advanced_test_database_config_default() {
    let db = DatabaseConfig::default();
    assert_eq!(db.tool_max_content_len, None);
    assert_eq!(db.reasoning_max_content_len, None);
}

#[test]
fn config_tests_advanced_test_is_mcp_server_allowed_default() {
    let config = basic_config();
    // No blacklist set — all servers allowed for group chats
    assert!(config.is_mcp_server_allowed("-123", "homeassistant"));
    assert!(config.is_mcp_server_allowed("-456", "anything"));
}

#[test]
fn config_tests_advanced_test_is_mcp_server_allowed_blacklisted() {
    let mut config = basic_config();
    config.chats.insert(
        "-123".into(),
        ChatConfig {
            mcp_blacklist: vec!["homeassistant".into()],
            ..Default::default()
        },
    );
    assert!(!config.is_mcp_server_allowed("-123", "homeassistant"));
    // Other servers still allowed
    assert!(config.is_mcp_server_allowed("-123", "download-server"));
    // Other chats not affected
    assert!(config.is_mcp_server_allowed("-456", "homeassistant"));
}

#[test]
fn config_tests_advanced_test_is_mcp_server_allowed_dm_always_allowed() {
    let mut config = basic_config();
    config.chats.insert(
        "12345".into(),
        ChatConfig {
            mcp_blacklist: vec!["homeassistant".into()],
            ..Default::default()
        },
    );
    // DM chats (positive chat_id) ignore the blacklist
    assert!(config.is_mcp_server_allowed("12345", "homeassistant"));
}

#[test]
fn config_tests_advanced_test_heartbeat_recent_messages_window_size_default() {
    let config = basic_config();
    // None → falls back to recent_messages_window_size (20)
    assert_eq!(config.heartbeat_recent_messages_window_size(), 20);
    assert_eq!(
        config.conversation.heartbeat_recent_messages_window_size,
        None
    );
}

#[test]
fn config_tests_advanced_test_heartbeat_recent_messages_window_size_set() {
    let mut config = basic_config();
    config.conversation.heartbeat_recent_messages_window_size = Some(5);
    assert_eq!(config.heartbeat_recent_messages_window_size(), 5);
}

#[test]
fn config_tests_advanced_test_heartbeat_recent_messages_window_size_set_to_zero() {
    let mut config = basic_config();
    config.conversation.heartbeat_recent_messages_window_size = Some(0);
    assert_eq!(config.heartbeat_recent_messages_window_size(), 0);
}

#[test]
fn test_openrouter_is_default_provider() {
    let config = basic_config();
    assert_eq!(config.provider, LlmProvider::Openrouter);
    assert!(config.uses_openrouter());
    assert_eq!(config.default_model(), "test/model");
}

#[test]
fn config_tests_basic_test_chat_config_defaults() {
    let config = basic_config();
    let chat = config.chat_config("-123");
    assert_eq!(chat.interaction_mode, InteractionMode::MentionOnly);
    assert!(chat.model.is_none());
    assert!(chat.interaction_whitelist.is_empty());
    assert!(chat.command_whitelist.is_empty());
    assert!(chat.system_prompt.is_empty());
}

#[test]
fn config_tests_basic_test_chat_config_override() {
    let mut config = basic_config();
    let chat = ChatConfig {
        interaction_mode: InteractionMode::EveryMessage,
        model: Some("custom/model".into()),
        ..Default::default()
    };
    config.chats.insert("-123".into(), chat);
    let loaded = config.chat_config("-123");
    assert_eq!(loaded.interaction_mode, InteractionMode::EveryMessage);
    assert_eq!(loaded.model.unwrap(), "custom/model");
}

#[test]
fn config_tests_basic_test_model_for_chat() {
    let mut config = basic_config();
    // default
    assert_eq!(config.model_for_chat("-123"), "test/model");
    // override
    config.chats.insert(
        "-123".into(),
        ChatConfig {
            model: Some("custom/model".into()),
            ..Default::default()
        },
    );
    assert_eq!(config.model_for_chat("-123"), "custom/model");
}

#[test]
fn test_provider_override_uses_provider_default_model() {
    let mut config = basic_config();
    config.openrouter.advice_model = Some("openai/advisor".into());
    config.codex = Some(CodexConfig {
        model: "gpt-5.4".into(),
        auth_file: "auth.json".into(),
        reasoning_effort: None,
        base_url: "https://chatgpt.com/backend-api".into(),
    });
    config.chats.insert(
        "-123".into(),
        ChatConfig {
            provider: Some(LlmProvider::Codex),
            ..Default::default()
        },
    );
    config.dms.insert(
        "456".into(),
        DmConfig {
            provider: Some(LlmProvider::Codex),
            model: Some("gpt-5.3-codex".into()),
            ..Default::default()
        },
    );

    assert_eq!(config.provider_for_chat("-123"), LlmProvider::Codex);
    assert_eq!(config.model_for_chat("-123"), "gpt-5.4");
    assert!(config.advice_model_for_chat("-123").is_none());
    assert_eq!(config.provider_for_chat("456"), LlmProvider::Codex);
    assert_eq!(config.model_for_chat("456"), "gpt-5.3-codex");
    assert_eq!(config.provider_for_chat("-999"), LlmProvider::Openrouter);
    config.validate().unwrap();
}

#[test]
fn config_tests_basic_test_bash_enabled_global_default() {
    let config = basic_config();
    assert!(config.is_bash_enabled("-123"));
    assert!(config.is_bash_enabled("456"));
}

#[test]
fn config_tests_basic_test_bash_enabled_per_chat_override_false() {
    let mut config = basic_config();
    config.chats.insert(
        "-123".into(),
        ChatConfig {
            bash_enabled: Some(false),
            ..Default::default()
        },
    );
    assert!(!config.is_bash_enabled("-123"));
    assert!(config.is_bash_enabled("-999")); // uses global true
}

#[test]
fn config_tests_basic_test_bash_enabled_per_chat_override_true_global_false() {
    let mut config = basic_config();
    config.bash_enabled = false;
    config.chats.insert(
        "-123".into(),
        ChatConfig {
            bash_enabled: Some(true),
            ..Default::default()
        },
    );
    assert!(config.is_bash_enabled("-123"));
    assert!(!config.is_bash_enabled("-999")); // uses global false
}

#[test]
fn config_tests_basic_test_heartbeat_per_chat_override_and_global_fallback() {
    let mut config = basic_config();
    config.heartbeat_interval_minutes = 90;
    config.chats.insert(
        "-123".into(),
        ChatConfig {
            heartbeat_interval_minutes: Some(30),
            ..Default::default()
        },
    );
    assert_eq!(config.heartbeat_interval("-123"), Some(30));
    assert_eq!(config.heartbeat_interval("-999"), Some(90));
}

#[test]
fn config_tests_dm_test_dm_config_defaults() {
    let dm = DmConfig::default();
    assert!(dm.model.is_none());
    assert!(!dm.commands_enabled);
    assert!(dm.system_prompt.is_empty());
    assert!(dm.heartbeat_interval_minutes.is_none());
    assert!(dm.bash_enabled.is_none());
}

#[test]
fn config_tests_dm_test_model_for_dm() {
    let mut config = basic_config();
    // DM without entry uses global default
    assert_eq!(config.model_for_chat("123"), "test/model");
    // DM with entry uses its model
    let mut dm = DmConfig::default();
    dm.model = Some("dm-model".into());
    config.dms.insert("123".into(), dm);
    assert_eq!(config.model_for_chat("123"), "dm-model");
}

#[test]
fn config_tests_dm_test_bash_enabled_for_dm() {
    let mut config = basic_config();
    // DM without entry uses global
    assert!(config.is_bash_enabled("456"));
    // DM with bash_enabled: false
    let mut dm = DmConfig::default();
    dm.bash_enabled = Some(false);
    config.dms.insert("456".into(), dm);
    assert!(!config.is_bash_enabled("456"));
}

#[test]
fn config_tests_dm_test_heartbeat_for_dm() {
    let mut config = basic_config();
    config.heartbeat_interval_minutes = 60;
    // DM without entry uses global
    assert_eq!(config.heartbeat_interval("789"), Some(60));
    // DM with override
    let mut dm = DmConfig::default();
    dm.heartbeat_interval_minutes = Some(15);
    config.dms.insert("789".into(), dm);
    assert_eq!(config.heartbeat_interval("789"), Some(15));
}

#[test]
fn config_tests_dm_test_heartbeat_for_dm_disabled() {
    let mut config = basic_config();
    let mut dm = DmConfig::default();
    dm.heartbeat_interval_minutes = Some(0);
    config.dms.insert("111".into(), dm);
    assert_eq!(config.heartbeat_interval("111"), None);
}

#[test]
fn config_tests_dm_test_dm_config_found_and_not_found() {
    let mut config = basic_config();
    assert!(config.dm_config("123").is_none());
    config.dms.insert("123".into(), DmConfig::default());
    assert!(config.dm_config("123").is_some());
}

#[test]
fn config_tests_dm_test_embedding_search_limit_default() {
    let config = basic_config();
    assert_eq!(config.embedding.search_limit, 1000);
}

#[test]
fn config_tests_dm_test_embedding_config_defaults() {
    let ec = EmbeddingConfig::default();
    assert_eq!(ec.max_chars, 0);
    assert!(!ec.allow_split);
    assert_eq!(ec.search_limit, 1000);
}

#[test]
fn config_tests_models_test_image_fallback_model_for_group_no_override() {
    let mut config = basic_config();
    config.openrouter.image_fallback_model = Some("global-img-fb".into());
    assert_eq!(
        config.image_fallback_model_for_chat("-123"),
        Some("global-img-fb")
    );
}

#[test]
fn config_tests_models_test_image_fallback_model_for_group_override() {
    let mut config = basic_config();
    config.openrouter.image_fallback_model = Some("global-img-fb".into());
    config.chats.insert(
        "-123".into(),
        ChatConfig {
            image_fallback_model: Some("chat-img-fb".into()),
            ..Default::default()
        },
    );
    assert_eq!(
        config.image_fallback_model_for_chat("-123"),
        Some("chat-img-fb")
    );
    // Other chat uses global
    assert_eq!(
        config.image_fallback_model_for_chat("-999"),
        Some("global-img-fb")
    );
}

#[test]
fn config_tests_models_test_image_fallback_model_for_dm_no_override() {
    let mut config = basic_config();
    config.openrouter.image_fallback_model = Some("global-img-fb".into());
    // DM without config entry → uses global
    assert_eq!(
        config.image_fallback_model_for_chat("123"),
        Some("global-img-fb")
    );
}

#[test]
fn config_tests_models_test_image_fallback_model_for_dm_override() {
    let mut config = basic_config();
    config.openrouter.image_fallback_model = Some("global-img-fb".into());
    config.dms.insert(
        "123".into(),
        DmConfig {
            image_fallback_model: Some("dm-img-fb".into()),
            ..Default::default()
        },
    );
    assert_eq!(
        config.image_fallback_model_for_chat("123"),
        Some("dm-img-fb")
    );
}

#[test]
fn config_tests_models_test_image_fallback_model_none_global() {
    let config = basic_config();
    assert_eq!(config.image_fallback_model_for_chat("-123"), None);
    assert_eq!(config.image_fallback_model_for_chat("456"), None);
}

#[test]
fn config_tests_models_test_audio_fallback_model_for_group_no_override() {
    let mut config = basic_config();
    config.openrouter.audio_fallback_model = Some("global-audio-fb".into());
    assert_eq!(
        config.audio_fallback_model_for_chat("-123"),
        Some("global-audio-fb")
    );
}

#[test]
fn config_tests_models_test_audio_fallback_model_for_group_override() {
    let mut config = basic_config();
    config.openrouter.audio_fallback_model = Some("global-audio-fb".into());
    config.chats.insert(
        "-123".into(),
        ChatConfig {
            audio_fallback_model: Some("chat-audio-fb".into()),
            ..Default::default()
        },
    );
    assert_eq!(
        config.audio_fallback_model_for_chat("-123"),
        Some("chat-audio-fb")
    );
    assert_eq!(
        config.audio_fallback_model_for_chat("-999"),
        Some("global-audio-fb")
    );
}

#[test]
fn config_tests_models_test_audio_fallback_model_for_dm_override() {
    let mut config = basic_config();
    config.openrouter.audio_fallback_model = Some("global-audio-fb".into());
    config.dms.insert(
        "123".into(),
        DmConfig {
            audio_fallback_model: Some("dm-audio-fb".into()),
            ..Default::default()
        },
    );
    assert_eq!(
        config.audio_fallback_model_for_chat("123"),
        Some("dm-audio-fb")
    );
}

#[test]
fn config_tests_models_test_audio_fallback_model_none_global() {
    let config = basic_config();
    assert_eq!(config.audio_fallback_model_for_chat("-123"), None);
}

#[test]
fn config_tests_models_test_image_gen_model_for_group_no_override() {
    let mut config = basic_config();
    config.openrouter.image_gen_model = Some("global-img-gen".into());
    assert_eq!(
        config.image_gen_model_for_chat("-123"),
        Some("global-img-gen")
    );
}

#[test]
fn config_tests_models_test_image_gen_model_for_group_override() {
    let mut config = basic_config();
    config.openrouter.image_gen_model = Some("global-img-gen".into());
    config.chats.insert(
        "-123".into(),
        ChatConfig {
            image_gen_model: Some("chat-img-gen".into()),
            ..Default::default()
        },
    );
    assert_eq!(
        config.image_gen_model_for_chat("-123"),
        Some("chat-img-gen")
    );
    assert_eq!(
        config.image_gen_model_for_chat("-999"),
        Some("global-img-gen")
    );
}

#[test]
fn config_tests_models_test_image_gen_model_for_dm_override() {
    let mut config = basic_config();
    config.openrouter.image_gen_model = Some("global-img-gen".into());
    config.dms.insert(
        "123".into(),
        DmConfig {
            image_gen_model: Some("dm-img-gen".into()),
            ..Default::default()
        },
    );
    assert_eq!(
        config.image_gen_model_for_chat("123"),
        Some("dm-img-gen")
    );
}

#[test]
fn config_tests_models_test_image_gen_model_none_global() {
    let config = basic_config();
    assert_eq!(config.image_gen_model_for_chat("-123"), None);
    assert_eq!(config.image_gen_model_for_chat("456"), None);
}

#[test]
fn config_tests_models_test_advice_model_default_none() {
    let config = basic_config();
    assert!(config.openrouter.advice_model.is_none());
}

#[test]
fn config_tests_models_test_advice_model_for_group_no_override() {
    let mut config = basic_config();
    config.openrouter.advice_model = Some("global-advice".into());
    assert_eq!(config.advice_model_for_chat("-123"), Some("global-advice"));
}

#[test]
fn config_tests_models_test_advice_model_for_group_override() {
    let mut config = basic_config();
    config.openrouter.advice_model = Some("global-advice".into());
    config.chats.insert(
        "-123".into(),
        ChatConfig {
            advice_model: Some("chat-advice".into()),
            ..Default::default()
        },
    );
    assert_eq!(config.advice_model_for_chat("-123"), Some("chat-advice"));
    assert_eq!(config.advice_model_for_chat("-999"), Some("global-advice"));
}

#[test]
fn config_tests_models_test_advice_model_for_dm_override() {
    let mut config = basic_config();
    config.openrouter.advice_model = Some("global-advice".into());
    config.dms.insert(
        "123".into(),
        DmConfig {
            advice_model: Some("dm-advice".into()),
            ..Default::default()
        },
    );
    assert_eq!(config.advice_model_for_chat("123"), Some("dm-advice"));
}

#[test]
fn config_tests_models_test_advice_model_for_dm_no_override() {
    let mut config = basic_config();
    config.openrouter.advice_model = Some("global-advice".into());
    // DM without entry → uses global
    assert_eq!(config.advice_model_for_chat("456"), Some("global-advice"));
}

#[test]
fn config_tests_models_test_advice_model_none_global() {
    let config = basic_config();
    assert_eq!(config.advice_model_for_chat("-123"), None);
    assert_eq!(config.advice_model_for_chat("456"), None);
}

#[test]
fn config_tests_models_test_conversation_advice_config_defaults() {
    let conv = ConversationConfig::default();
    assert_eq!(conv.advice_recent_messages_window_size, 5);
}
