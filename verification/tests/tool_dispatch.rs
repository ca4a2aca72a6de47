use glowbot::dispatch::{
    mcp_route, screenshot_argument, tool_reply, tool_step, ToolAction, ToolArgs, ToolContext,
    ToolOutcome,
};
use glowbot::tools::McpToolInfo;

fn no_args() -> ToolArgs {
    ToolArgs {
        text: None,
        command: None,
        description: None,
        id: None,
        trigger_at: None,
        action: None,
        completed: None,
        query: None,
        count: None,
    }
}

fn ctx(bash_enabled: bool, can_send: bool) -> ToolContext {
    ToolContext { bash_enabled, can_send, has_embedding_model: true }
}

fn reply(s: &str) -> ToolAction {
    ToolAction::Reply(s.to_string())
}

#[test]
fn send_message_needs_text_and_client() {
    assert_eq!(tool_step("send_message", &no_args(), &ctx(false, true)), reply("Error: text required"));
    let mut a = no_args();
    a.text = Some("hi".into());
    assert_eq!(
        tool_step("send_message", &a, &ctx(false, false)),
        reply("Error: send_message not available in this context.")
    );
    assert_eq!(
        tool_step("send_message", &a, &ctx(false, true)),
        ToolAction::SendMessage { text: "hi".into() }
    );
}

#[test]
fn bash_disabled_is_refused() {
    let mut a = no_args();
    a.command = Some("ls".into());
    assert_eq!(
        tool_step("bash", &a, &ctx(false, true)),
        reply("Error: bash is disabled for this chat. Enable it in config or ask an admin.")
    );
    assert_eq!(tool_step("bash", &a, &ctx(true, true)), ToolAction::RunBash { command: "ls".into() });
}

#[test]
fn descriptions_and_ids_are_required() {
    assert_eq!(tool_step("add_task", &no_args(), &ctx(true, true)), reply("Error: description required"));
    assert_eq!(tool_step("create_todo", &no_args(), &ctx(true, true)), reply("Error: description required"));
    for name in ["remove_task", "remove_reminder", "delete_todo", "edit_todo"] {
        assert_eq!(tool_step(name, &no_args(), &ctx(true, true)), reply("Error: id required"));
    }
    let mut a = no_args();
    a.description = Some("water plants".into());
    a.id = Some("t1".into());
    assert_eq!(
        tool_step("add_task", &a, &ctx(true, true)),
        ToolAction::AddTask { description: "water plants".into() }
    );
    assert_eq!(
        tool_step("create_todo", &a, &ctx(true, true)),
        ToolAction::CreateTodo { description: "water plants".into() }
    );
    assert_eq!(tool_step("remove_task", &a, &ctx(true, true)), ToolAction::RemoveTask { id: "t1".into() });
    assert_eq!(
        tool_step("remove_reminder", &a, &ctx(true, true)),
        ToolAction::RemoveReminder { id: "t1".into() }
    );
    assert_eq!(tool_step("delete_todo", &a, &ctx(true, true)), ToolAction::DeleteTodo { id: "t1".into() });
}

#[test]
fn create_reminder_checks_the_timestamp() {
    let mut a = no_args();
    a.description = Some("stand up".into());
    assert_eq!(
        tool_step("create_reminder", &a, &ctx(true, true)),
        reply("Error: description and trigger_at required")
    );
    a.trigger_at = Some("tomorrow".into());
    assert_eq!(
        tool_step("create_reminder", &a, &ctx(true, true)),
        reply("Error: trigger_at must be a valid ISO 8601 timestamp in UTC (e.g. '2026-05-11T18:00:00Z'), got: tomorrow")
    );
    a.trigger_at = Some("2026-05-11T18:00:00Z".into());
    a.action = Some("check the oven".into());
    assert_eq!(
        tool_step("create_reminder", &a, &ctx(true, true)),
        ToolAction::CreateReminder {
            description: "stand up".into(),
            trigger_at: "2026-05-11T18:00:00Z".into(),
            action: Some("check the oven".into()),
        }
    );
}

#[test]
fn edit_todo_needs_a_change() {
    let mut a = no_args();
    a.id = Some("d1".into());
    assert_eq!(
        tool_step("edit_todo", &a, &ctx(true, true)),
        reply("Error: at least one of 'description' or 'completed' must be provided")
    );
    a.description = Some(String::new());
    assert_eq!(tool_step("edit_todo", &a, &ctx(true, true)), reply("Error: description must not be empty"));
    a.description = None;
    a.completed = Some(true);
    assert_eq!(
        tool_step("edit_todo", &a, &ctx(true, true)),
        ToolAction::EditTodo { id: "d1".into(), new_description: None, completed: Some(true) }
    );
}

#[test]
fn other_tools_are_delegated() {
    assert_eq!(tool_step("list_tasks", &no_args(), &ctx(true, true)), ToolAction::Delegate);
    assert_eq!(tool_step("mcp_home_lights", &no_args(), &ctx(false, false)), ToolAction::Delegate);
    assert_eq!(tool_step("generate_image", &no_args(), &ctx(false, false)), ToolAction::Delegate);
}

#[test]
fn bot_tests_dispatch3_test_dispatch_unknown_tool() {
    assert_eq!(
        tool_step("narnia", &no_args(), &ctx(true, true)),
        ToolAction::Reply("Unknown tool: narnia".to_string())
    );
    assert_eq!(tool_step("", &no_args(), &ctx(true, true)), ToolAction::Reply("Unknown tool: ".to_string()));
}

#[test]
fn outcomes_are_reported() {
    let sent = ToolAction::SendMessage { text: "hi".into() };
    assert_eq!(tool_reply(&sent, &ToolOutcome::Sent), Some("Message sent.".to_string()));
    let add = ToolAction::AddTask { description: "check mail".into() };
    assert_eq!(
        tool_reply(&add, &ToolOutcome::Added { id: "a1".into() }),
        Some("Task 'a1' added: check mail".to_string())
    );
    let todo = ToolAction::CreateTodo { description: "buy milk".into() };
    assert_eq!(
        tool_reply(&todo, &ToolOutcome::Added { id: "t7".into() }),
        Some("Todo created: t7 — buy milk".to_string())
    );
    let rem = ToolAction::CreateReminder {
        description: "stand up".into(),
        trigger_at: "2026-05-11T18:00:00Z".into(),
        action: None,
    };
    assert_eq!(
        tool_reply(&rem, &ToolOutcome::Added { id: "r1".into() }),
        Some("Reminder 'r1' created for 2026-05-11T18:00:00Z: stand up".to_string())
    );
    let rm = ToolAction::RemoveTask { id: "a1".into() };
    assert_eq!(
        tool_reply(&rm, &ToolOutcome::Removed { remaining: 2 }),
        Some("Task 'a1' removed. 2 remaining.".to_string())
    );
    assert_eq!(tool_reply(&rm, &ToolOutcome::NotFound), Some("Task 'a1' not found.".to_string()));
    let rr = ToolAction::RemoveReminder { id: "r1".into() };
    assert_eq!(
        tool_reply(&rr, &ToolOutcome::Removed { remaining: 0 }),
        Some("Reminder 'r1' removed. 0 remaining.".to_string())
    );
    assert_eq!(tool_reply(&rr, &ToolOutcome::NotFound), Some("Reminder 'r1' not found.".to_string()));
    let del = ToolAction::DeleteTodo { id: "t7".into() };
    assert_eq!(
        tool_reply(&del, &ToolOutcome::Removed { remaining: 11 }),
        Some("Todo 't7' deleted. 11 remaining.".to_string())
    );
    assert_eq!(tool_reply(&del, &ToolOutcome::Sent), None);
}

#[test]
fn todo_edits_are_reported() {
    let edit = ToolAction::EditTodo { id: "t7".into(), new_description: Some("oat milk".into()), completed: Some(true) };
    assert_eq!(
        tool_reply(&edit, &ToolOutcome::Edited { now_completed: Some(false) }),
        Some("Todo 't7': description updated to 'oat milk', marked as not completed".to_string())
    );
    let only_done = ToolAction::EditTodo { id: "t7".into(), new_description: None, completed: Some(true) };
    assert_eq!(
        tool_reply(&only_done, &ToolOutcome::Edited { now_completed: Some(true) }),
        Some("Todo 't7': marked as completed".to_string())
    );
    assert_eq!(tool_reply(&only_done, &ToolOutcome::NotFound), Some("Todo 't7' not found.".to_string()));
    assert_eq!(
        tool_reply(&ToolAction::Reply("Error: id required".into()), &ToolOutcome::Sent),
        Some("Error: id required".to_string())
    );
}

#[test]
fn bot_tests_test_dispatch_unknown_tool() {
    match tool_step("narnia", &no_args(), &ctx(false, false)) {
        ToolAction::Reply(t) => assert!(t.contains("Unknown tool")),
        other => panic!("unexpected {:?}", other),
    }
}

#[test]
fn history_tools_read_their_counts() {
    let mut a = no_args();
    assert_eq!(tool_step("get_recent_messages", &a, &ctx(true, true)), ToolAction::RecentMessages { count: 10 });
    a.count = Some(500);
    assert_eq!(tool_step("get_recent_messages", &a, &ctx(true, true)), ToolAction::RecentMessages { count: 50 });
    a.count = Some(0);
    assert_eq!(tool_step("get_recent_messages", &a, &ctx(true, true)), ToolAction::RecentMessages { count: 1 });
    a.count = Some(-3);
    assert_eq!(tool_step("get_recent_messages", &a, &ctx(true, true)), ToolAction::RecentMessages { count: 50 });
    let mut q = no_args();
    assert_eq!(tool_step("search_conversations", &q, &ctx(true, true)), reply("Error: query required"));
    q.query = Some("cats".into());
    let no_embed = ToolContext { bash_enabled: true, can_send: true, has_embedding_model: false };
    assert_eq!(tool_step("search_conversations", &q, &no_embed), reply("Error: embedding model not configured"));
    assert_eq!(
        tool_step("search_conversations", &q, &ctx(true, true)),
        ToolAction::SearchConversations { query: "cats".into(), count: 5 }
    );
    q.count = Some(20);
    assert_eq!(
        tool_step("search_conversations", &q, &ctx(true, true)),
        ToolAction::SearchConversations { query: "cats".into(), count: 10 }
    );
}

#[test]
fn mcp_calls_are_routed() {
    let mut config = glowbot::config::basic_config();
    config.chats.insert(
        "-9".into(),
        glowbot::config::ChatConfig { mcp_blacklist: vec!["home".into()], ..Default::default() },
    );
    let tools = vec![
        McpToolInfo { server_name: "home".into(), name: "lights".into(), description: "Lights".into() },
        McpToolInfo { server_name: "pw".into(), name: "take_screenshot".into(), description: "Shot".into() },
    ];
    assert_eq!(
        mcp_route(&tools, &config, "-1", "mcp_pw_take_screenshot"),
        Ok(("pw".to_string(), "take_screenshot".to_string()))
    );
    assert_eq!(
        mcp_route(&tools, &config, "-9", "mcp_home_lights"),
        Err("MCP tool blacklisted for this chat: mcp_home_lights".to_string())
    );
    assert_eq!(
        mcp_route(&tools, &config, "-1", "mcp_x_y"),
        Err("MCP tool not found: mcp_x_y".to_string())
    );
}

#[test]
fn screenshots_are_saved_in_the_media_dir() {
    assert_eq!(
        screenshot_argument("mcp_pw_take_screenshot", Some("shot.png"), None, "media"),
        Some(("filename".to_string(), "media/pw-media/shot.png".to_string()))
    );
    assert_eq!(
        screenshot_argument("mcp_pw_take_screenshot", Some("/tmp/a.png"), Some("b.png"), "media"),
        Some(("name".to_string(), "media/pw-media/b.png".to_string()))
    );
    assert_eq!(screenshot_argument("mcp_pw_take_screenshot", Some(""), None, "media"), None);
    assert_eq!(screenshot_argument("mcp_pw_click", Some("shot.png"), None, "media"), None);
}
