use glowbot::commands::{route_message, MessageRoute};
use glowbot::config::InteractionMode;
use glowbot::commands::{command_allowed, command_start, model_info_text, model_reset_text, model_set_text, Command, CommandStart};
use glowbot::media::media_listing;
use glowbot::telegram::part_header;
use glowbot::approvals::{
    approval_step, config_reply, model_followup, model_reply, parse_approval_callback,
    ApprovalStep, ConfigApplyOutcome, PendingConfigChange, PendingModelChange,
};
use glowbot::bash::{i32_to_decimal, BashResult};
use glowbot::config::{basic_config, ChatConfig, CodexConfig, DmConfig, LlmProvider};
use glowbot::session::{
    chat_system_prompt, effective_model, effective_provider, model_status,
    offered_mcp_tool_entries,
};
use glowbot::tools::McpToolInfo;

#[test]
fn approval_callbacks_need_three_pieces_and_the_kind() {
    assert_eq!(
        parse_approval_callback("cfg:abc:accept", "cfg"),
        Some(("abc".to_string(), "accept".to_string()))
    );
    assert_eq!(
        parse_approval_callback("mdl:1f:deny", "mdl"),
        Some(("1f".to_string(), "deny".to_string()))
    );
    assert_eq!(parse_approval_callback("cfg:abc:accept", "mdl"), None);
    assert_eq!(parse_approval_callback("cfg:abc", "cfg"), None);
    assert_eq!(parse_approval_callback("cfg:abc:accept:x", "cfg"), None);
    assert_eq!(
        parse_approval_callback("cfg::", "cfg"),
        Some((String::new(), String::new()))
    );
}

#[test]
fn approval_steps_check_the_pending_change_first() {
    assert_eq!(approval_step(false, "accept"), ApprovalStep::Expired);
    assert_eq!(approval_step(true, "accept"), ApprovalStep::Accept);
    assert_eq!(approval_step(true, "deny"), ApprovalStep::Deny);
    assert_eq!(approval_step(true, "maybe"), ApprovalStep::Unknown);
}

#[test]
fn config_replies_for_each_step() {
    let pending = PendingConfigChange {
        chat_id: "-1".into(),
        message_id: 7,
        new_yaml: "telegram_token: x".into(),
    };
    assert_eq!(pending.message_id, 7);
    let (text, note) = config_reply(ApprovalStep::Expired, &ConfigApplyOutcome::Applied);
    assert_eq!(text, "⚠️ This config change has expired or was already processed.");
    assert!(note.is_none());
    let (text, _) = config_reply(ApprovalStep::Accept, &ConfigApplyOutcome::Applied);
    assert!(text.starts_with("✅ *Config Change Applied*"));
    let (text, _) = config_reply(
        ApprovalStep::Accept,
        &ConfigApplyOutcome::Invalid("missing field".into()),
    );
    assert_eq!(text, "❌ Config validation failed: missing field");
    let (text, _) = config_reply(
        ApprovalStep::Accept,
        &ConfigApplyOutcome::SaveFailed("disk full".into()),
    );
    assert_eq!(text, "❌ Failed to save config: disk full");
    let (text, note) = config_reply(ApprovalStep::Deny, &ConfigApplyOutcome::Applied);
    assert!(text.starts_with("❌ *Config Change Denied*"));
    assert!(note.unwrap().starts_with("The user denied the proposed config change."));
    let (text, note) = config_reply(ApprovalStep::Unknown, &ConfigApplyOutcome::Applied);
    assert_eq!(text, "⚠️ Unknown action.");
    assert!(note.is_none());
}

#[test]
fn model_replies_for_each_step() {
    let pending = PendingModelChange {
        chat_id: "-1".into(),
        message_id: 3,
        proposed_model: "openai/gpt-4".into(),
    };
    assert_eq!(
        model_followup(ApprovalStep::Accept, &pending.proposed_model),
        Some("Model change accepted. Now using `openai/gpt-4`.".to_string())
    );
    assert_eq!(
        model_followup(ApprovalStep::Deny, &pending.proposed_model),
        Some("Model change denied. The current model remains unchanged.".to_string())
    );
    assert_eq!(model_followup(ApprovalStep::Expired, "m"), None);
    assert_eq!(
        model_reply(ApprovalStep::Accept, "openai/gpt\\-4"),
        "✅ *Model Changed*\n\nNow using: `openai/gpt\\-4`\n\nUse `/model_default` to reset to the config default."
    );
    assert_eq!(
        model_reply(ApprovalStep::Expired, ""),
        "⚠️ This model change proposal has expired or was already processed."
    );
}

#[test]
fn bash_report_shows_output_or_exit_code() {
    let r = BashResult { stdout: "hi\n".into(), stderr: String::new(), exit_code: 0 };
    assert_eq!(r.report(), "stdout:\nhi\n");
    let r = BashResult { stdout: "a".into(), stderr: "b".into(), exit_code: 1 };
    assert_eq!(r.report(), "stdout:\nastderr:\nb");
    let r = BashResult { stdout: String::new(), stderr: String::new(), exit_code: 42 };
    assert_eq!(r.report(), "exit code: 42");
    let r = BashResult { stdout: String::new(), stderr: String::new(), exit_code: -1 };
    assert_eq!(r.report(), "exit code: -1");
    assert_eq!(i32_to_decimal(i32::MIN), i32::MIN.to_string());
    assert_eq!(i32_to_decimal(0), "0");
}

#[test]
fn effective_model_prefers_overrides() {
    let mut config = basic_config();
    config.codex = Some(CodexConfig {
        model: "gpt-5.4".into(),
        auth_file: "auth.json".into(),
        reasoning_effort: None,
        base_url: "https://chatgpt.com/backend-api".into(),
    });
    assert_eq!(effective_model(&config, "-1", None, None), "test/model");
    assert_eq!(effective_model(&config, "-1", Some("x/y"), None), "x/y");
    assert_eq!(
        effective_model(&config, "-1", None, Some(LlmProvider::Codex)),
        "gpt-5.4"
    );
    assert_eq!(
        effective_model(&config, "-1", Some("x/y"), Some(LlmProvider::Codex)),
        "x/y"
    );
    assert_eq!(effective_provider(&config, "-1", None), LlmProvider::Openrouter);
    assert_eq!(
        effective_provider(&config, "-1", Some(LlmProvider::Codex)),
        LlmProvider::Codex
    );
}

#[test]
fn model_status_mentions_the_default_under_an_override() {
    let config = basic_config();
    assert_eq!(
        model_status(&config, "-1", None, None),
        "🎯 *Current model:* `test/model`\n🏷 Provider: `openrouter`\n\nBrowse models:"
    );
    assert_eq!(
        model_status(&config, "-1", Some("a/b"), None),
        "🎯 *Current model:* `a/b` \\(override\\)\n🏷 Provider: `openrouter`\n📌 Config default: `test/model`\n\nBrowse models:"
    );
}

#[test]
fn system_prompt_comes_from_the_dm_entry_then_the_chat_entry() {
    let mut config = basic_config();
    config.chats.insert(
        "-5".into(),
        ChatConfig { system_prompt: "group prompt".into(), ..Default::default() },
    );
    config.dms.insert(
        "77".into(),
        DmConfig { system_prompt: "dm prompt".into(), ..Default::default() },
    );
    assert_eq!(chat_system_prompt(&config, "-5"), "group prompt");
    assert_eq!(chat_system_prompt(&config, "77"), "dm prompt");
    assert_eq!(chat_system_prompt(&config, "78"), "");
}

#[test]
fn mcp_tools_of_blacklisted_servers_are_not_offered() {
    let mut config = basic_config();
    config.chats.insert(
        "-9".into(),
        ChatConfig { mcp_blacklist: vec!["home".into()], ..Default::default() },
    );
    let tools = vec![
        McpToolInfo { server_name: "home".into(), name: "lights".into(), description: "Lights".into() },
        McpToolInfo { server_name: "dl".into(), name: "fetch".into(), description: "Fetch".into() },
    ];
    assert_eq!(
        offered_mcp_tool_entries(&config, "-9", &tools),
        vec![("mcp_dl_fetch".to_string(), "[MCP: dl] Fetch".to_string())]
    );
    assert_eq!(offered_mcp_tool_entries(&config, "42", &tools).len(), 2);
}

#[test]
fn command_permissions_follow_the_chat_settings() {
    let mut config = basic_config();
    config.chats.insert(
        "-10".into(),
        ChatConfig { command_whitelist: vec!["u1".into()], ..Default::default() },
    );
    config.dms.insert("55".into(), DmConfig { commands_enabled: true, ..Default::default() });
    config.dms.insert("56".into(), DmConfig::default());
    // always allowed
    assert!(command_allowed(&config, "-99", "x", &Command::Stop));
    assert!(command_allowed(&config, "77", "x", &Command::Todos(false)));
    // groups: whitelist only
    assert!(command_allowed(&config, "-10", "u1", &Command::Status));
    assert!(!command_allowed(&config, "-10", "u2", &Command::Status));
    assert!(!command_allowed(&config, "-11", "u1", &Command::Status));
    // DMs: per entry
    assert!(command_allowed(&config, "55", "55", &Command::New));
    assert!(!command_allowed(&config, "56", "56", &Command::New));
    assert!(!command_allowed(&config, "57", "57", &Command::New));
}

#[test]
fn model_command_replies() {
    assert_eq!(
        model_info_text("a/b", true, "c/d"),
        "🎯 Current model: `a/b` (override)\n📌 Config default: `c/d`\n\nSet model: `/model <model-id>`\nSwitch routing: `/model :nitro` | `:floor` | `:free`"
    );
    assert!(model_info_text("a/b", false, "a/b").starts_with("🎯 Current model: `a/b`\n"));
    assert_eq!(model_set_text("x/y"), "✅ Model set to `x/y`");
    assert_eq!(model_reset_text("x/y"), "🔁 Model reset to config default: `x/y`");
}

#[test]
fn media_listing_and_part_headers() {
    assert_eq!(
        media_listing("/media", &vec![], false),
        "Media directory listing for '/media':\n(empty)"
    );
    assert_eq!(
        media_listing("/m", &vec!["📁 a/".to_string(), "  📄 a/b (1 B)".to_string()], true),
        "Media directory listing for '/m':\n📁 a/\n  📄 a/b (1 B)\n... (truncated at 500 entries)\n"
    );
    assert_eq!(part_header(0, 1), "");
    assert_eq!(part_header(1, 3), "*Part 2/3*\n\n");
}

#[test]
fn commands_begin_with_the_permission_check() {
    let mut config = basic_config();
    config.chats.insert(
        "-10".into(),
        ChatConfig { command_whitelist: vec!["456".into()], ..Default::default() },
    );
    assert_eq!(
        command_start(&config, "-10", "789", &Command::Model(Some(":nitro".into()))),
        CommandStart::Refuse("You are not authorized to run bot commands.".into())
    );
    assert_eq!(
        command_start(&config, "-10", "789", &Command::Stop),
        CommandStart::Stop("Stop signal sent. Current operations will be cancelled.".into())
    );
    assert_eq!(command_start(&config, "-10", "456", &Command::Status), CommandStart::Proceed);
    assert_eq!(command_start(&config, "-10", "789", &Command::Tasks), CommandStart::Proceed);
}

#[test]
fn messages_are_routed() {
    let mut config = basic_config();
    config.chats.insert(
        "-10".into(),
        ChatConfig {
            interaction_mode: InteractionMode::EveryMessage,
            interaction_whitelist: vec!["u1".into()],
            ..Default::default()
        },
    );
    config.chats.insert(
        "-11".into(),
        ChatConfig { interaction_mode: InteractionMode::MentionOnly, ..Default::default() },
    );
    config.dms.insert("55".into(), DmConfig::default());
    assert_eq!(route_message(&config, "-10", "u2", "/status", "mybot"), MessageRoute::Command(Command::Status));
    assert_eq!(route_message(&config, "-10", "u2", "hello", "mybot"), MessageRoute::Ignore);
    assert_eq!(route_message(&config, "-10", "u1", "hello", "mybot"), MessageRoute::Pipeline);
    assert_eq!(route_message(&config, "-11", "u1", "hello", "mybot"), MessageRoute::Ignore);
    assert_eq!(route_message(&config, "-11", "u1", "hello @mybot", "mybot"), MessageRoute::Pipeline);
    assert_eq!(route_message(&config, "-10", "u1", "/unknowncmd", "mybot"), MessageRoute::Ignore);
    assert_eq!(route_message(&config, "-10", "u1", "/unknowncmd @mybot", "mybot"), MessageRoute::Pipeline);
    assert_eq!(route_message(&config, "55", "55", "hi", "mybot"), MessageRoute::Pipeline);
    assert_eq!(
        route_message(&config, "56", "56", "hi", "mybot"),
        MessageRoute::Reply(
            "I don't know you yet. Please ask the bot owner to add your user ID (`56`) to the `dms` section in the config."
                .to_string()
        )
    );
}

#[test]
fn proposals_are_handled_once() {
    let mut pending: glowbot::approvals::PendingChanges<PendingModelChange> =
        glowbot::approvals::PendingChanges::new();
    pending.add(
        "abc".into(),
        PendingModelChange { chat_id: "-1".into(), message_id: 7, proposed_model: "a/b".into() },
    );
    assert!(pending.contains("abc"));
    let (step, change) = pending.tap("abc", "accept");
    assert_eq!(step, ApprovalStep::Accept);
    assert_eq!(change.unwrap().proposed_model, "a/b");
    let (step, change) = pending.tap("abc", "accept");
    assert_eq!(step, ApprovalStep::Expired);
    assert!(change.is_none());
    assert!(!pending.contains("abc"));
}
