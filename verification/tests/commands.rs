use glowbot::commands::{can_interact, can_run_command, handle_command, parse_command, Command};
use glowbot::config::ChatConfig;

#[test]
    fn test_parse_command_status() {
        assert_eq!(parse_command("/status"), Some(Command::Status));
        assert_eq!(parse_command("/codex_usage"), Some(Command::CodexUsage));
        assert_eq!(
            parse_command("/codex_usage@glowythebot"),
            Some(Command::CodexUsage)
        );
    }

#[test]
    fn test_parse_command_stop() {
        assert_eq!(parse_command("/stop"), Some(Command::Stop));
    }

#[test]
    fn test_parse_command_todos() {
        assert_eq!(parse_command("/todos"), Some(Command::Todos(false)));
        assert_eq!(parse_command("/todos details"), Some(Command::Todos(true)));
        assert_eq!(parse_command("/todos DETAILS"), Some(Command::Todos(true)));
        assert_eq!(
            parse_command("/todos@glowythebot"),
            Some(Command::Todos(false))
        );
        assert_eq!(
            parse_command("/todos@glowythebot details"),
            Some(Command::Todos(true))
        );
        // other args are not "details"
        assert_eq!(parse_command("/todos foo"), Some(Command::Todos(false)));
    }

#[test]
    fn test_parse_command_strips_botname_suffix() {
        assert_eq!(
            parse_command("/todos@glowythebot"),
            Some(Command::Todos(false))
        );
        assert_eq!(parse_command("/tasks@glowythebot"), Some(Command::Tasks));
        assert_eq!(
            parse_command("/reminders@glowythebot"),
            Some(Command::Reminders)
        );
        assert_eq!(parse_command("/status@otherbot"), Some(Command::Status));
        assert_eq!(parse_command("/stop@somebot"), Some(Command::Stop));
        // With arguments
        assert_eq!(
            parse_command("/tasks@glowythebot extra"),
            Some(Command::Tasks)
        );
    }

#[test]
    fn test_parse_command_run() {
        assert_eq!(parse_command("/run"), Some(Command::Run));
        assert_eq!(parse_command("/run@glowythebot"), Some(Command::Run));
    }

#[test]
    fn test_parse_command_reminders() {
        assert_eq!(parse_command("/reminders"), Some(Command::Reminders));
    }

#[test]
    fn test_parse_command_new() {
        assert_eq!(parse_command("/new"), Some(Command::New));
        assert_eq!(parse_command("/new@glowythebot"), Some(Command::New));
    }

#[test]
    fn test_parse_command_prompt() {
        assert_eq!(parse_command("/prompt"), Some(Command::Prompt));
        assert_eq!(parse_command("/prompt@glowythebot"), Some(Command::Prompt));
    }

#[test]
    fn test_parse_command_tools() {
        assert_eq!(parse_command("/tools"), Some(Command::Tools));
        assert_eq!(parse_command("/tools@glowythebot"), Some(Command::Tools));
    }

#[test]
    fn test_parse_command_config() {
        assert_eq!(parse_command("/config"), Some(Command::Config));
        assert_eq!(parse_command("/config@glowythebot"), Some(Command::Config));
    }

#[test]
    fn test_parse_command_config_schema() {
        assert_eq!(parse_command("/config_schema"), Some(Command::ConfigSchema));
        assert_eq!(
            parse_command("/config_schema@glowythebot"),
            Some(Command::ConfigSchema)
        );
    }

#[test]
    fn test_parse_command_models() {
        assert_eq!(parse_command("/models"), Some(Command::Models));
        assert_eq!(parse_command("/models@glowythebot"), Some(Command::Models));
    }

#[test]
    fn test_parse_command_model_default() {
        assert_eq!(parse_command("/model_default"), Some(Command::ModelDefault));
        assert_eq!(parse_command("/model_reset"), Some(Command::ModelDefault));
        assert_eq!(
            parse_command("/model_default@glowythebot"),
            Some(Command::ModelDefault)
        );
        assert_eq!(
            parse_command("/model_reset@glowythebot"),
            Some(Command::ModelDefault)
        );
    }

#[test]
    fn test_parse_not_a_command() {
        assert!(parse_command("Hello!").is_none());
        assert!(parse_command("").is_none());
        assert!(parse_command("   hi   ").is_none());
        // /model is now a command
        assert_eq!(parse_command("/model"), Some(Command::Model(None)));
        assert_eq!(
            parse_command("/model gpt-4"),
            Some(Command::Model(Some("gpt-4".into())))
        );
        assert_eq!(
            parse_command("/model :nitro"),
            Some(Command::Model(Some(":nitro".into())))
        );
        assert_eq!(
            parse_command("/model foo/bar:nitro"),
            Some(Command::Model(Some("foo/bar:nitro".into())))
        );
        assert_eq!(
            parse_command("/model@glowythebot :floor"),
            Some(Command::Model(Some(":floor".into())))
        );
        // /mode and /reload are no longer commands
        assert!(parse_command("/mode every_message").is_none());
        assert!(parse_command("/reload").is_none());
    }

#[test]
    fn test_can_run_command() {
        // Empty command_whitelist → nobody can run
        let config = ChatConfig::default();
        assert!(!can_run_command(&config, "123"));

        // Whitelist set → only listed users can run
        let config = ChatConfig {
            command_whitelist: vec!["456".into()],
            ..Default::default()
        };
        assert!(can_run_command(&config, "456"));
        assert!(!can_run_command(&config, "789"));
    }

#[test]
    fn test_can_interact() {
        // Empty whitelist = everyone
        let config = ChatConfig::default();
        assert!(can_interact(&config, "anyone"));
        // With whitelist
        let config = ChatConfig {
            interaction_whitelist: vec!["123".into()],
            ..Default::default()
        };
        assert!(can_interact(&config, "123"));
        assert!(!can_interact(&config, "456"));
    }

#[test]
    fn test_handle_status_command_group() {
        let mut config = glowbot::config::basic_config();
        config.openrouter.model = "default-model".into();
        let resp = handle_command(&Command::Status, &mut config, "-123", "1k/10k (10%)");
        assert!(resp.contains("-123"));
        assert!(resp.contains("default-model"));
        assert!(resp.contains("1k/10k (10%)"));
        assert!(resp.contains("MentionOnly"));
        assert!(resp.contains("everyone")); // interaction whitelist
        assert!(resp.contains("nobody")); // command whitelist empty = nobody
                                          // Group chat must not contain DM-specific fields
        assert!(!resp.contains("DM commands"));
        // Name field should not appear when not set
        assert!(!resp.contains("Name:"));
    }

#[test]
    fn test_handle_status_command_dm_registered() {
        let mut config = glowbot::config::basic_config();
        config.openrouter.model = "default-model".into();
        config.dms.insert(
            "123456".into(),
            glowbot::config::DmConfig {
                model: Some("dm-model".into()),
                commands_enabled: true,
                system_prompt: "You are helpful.".into(),
                ..Default::default()
            },
        );
        let resp = handle_command(&Command::Status, &mut config, "123456", "2k/20k (10%)");
        assert!(resp.contains("123456"));
        assert!(resp.contains("dm-model"));
        assert!(resp.contains("2k/20k (10%)"));
        assert!(resp.contains("DM commands: enabled"));
        assert!(resp.contains("DM system prompt: set (16 chars)"));
        // DM must not contain group-specific fields
        assert!(!resp.contains("Interaction mode"));
        assert!(!resp.contains("Interaction whitelist"));
        assert!(!resp.contains("Command whitelist"));
        // Name field should not appear when not set
        assert!(!resp.contains("Name:"));
    }

#[test]
    fn test_handle_status_command_dm_unregistered() {
        let mut config = glowbot::config::basic_config();
        config.openrouter.model = "default-model".into();
        // No DM config for this chat_id — not in the dms map
        let resp = handle_command(&Command::Status, &mut config, "999", "5k/100k (5%)");
        assert!(resp.contains("999"));
        assert!(resp.contains("default-model"));
        assert!(resp.contains("5k/100k (5%)"));
        assert!(resp.contains("DM commands: disabled (no DM config)"));
        assert!(resp.contains("DM system prompt: not set (no DM config)"));
        assert!(!resp.contains("Interaction mode"));
        // Name field should not appear when not set
        assert!(!resp.contains("Name:"));
    }

#[test]
    fn test_handle_status_with_name() {
        let mut config = glowbot::config::basic_config();
        config.openrouter.model = "default-model".into();

        // Group chat with name
        config.chats.insert(
            "-123".into(),
            glowbot::config::ChatConfig {
                name: Some("Team Chat".into()),
                ..Default::default()
            },
        );
        let resp = handle_command(&Command::Status, &mut config, "-123", "1k/10k (10%)");
        assert!(resp.contains("Name: Team Chat"));

        // DM with name
        config.dms.insert(
            "123456".into(),
            glowbot::config::DmConfig {
                name: Some("Alice".into()),
                commands_enabled: true,
                ..Default::default()
            },
        );
        let resp = handle_command(&Command::Status, &mut config, "123456", "2k/20k (10%)");
        assert!(resp.contains("Name: Alice"));
    }

#[test]
    fn test_handle_stop_command() {
        let mut config = glowbot::config::basic_config();
        let resp = handle_command(&Command::Stop, &mut config, "-123", "");
        assert!(resp.contains("Stop command received"));
    }

#[test]
fn parsing_ignores_surrounding_space_and_bot_names() {
    assert_eq!(parse_command("  /status \n"), parse_command("/status"));
    assert_eq!(parse_command("   hi   "), None);
    assert_eq!(parse_command("/tasks@glowythebot extra"), Some(Command::Tasks));
    assert_eq!(parse_command("/status@otherbot"), Some(Command::Status));
    assert_eq!(parse_command("/model@mybot a/b"), parse_command("/model a/b"));
    assert_eq!(parse_command("/tasks@glowy\tbot extra"), Some(Command::Tasks));
    assert_eq!(parse_command("/status@otherbot\t"), Some(Command::Status));
}
