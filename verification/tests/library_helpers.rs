use glowbot::callbacks::{parse_model_callback, parse_todo_callback, parse_usize, ModelCallback, TodoCallback};
use glowbot::config::{LlmProvider, McpServer};
use glowbot::media::{generated_image_path, image_count, media_kind, resolve_file_path, MediaKind};
use glowbot::messages::{cap_tool_result, chunk_for_embedding};
use glowbot::models::{is_known_codex_model, parse_provider, provider_menu_rows};
use glowbot::todos::{todo_menu, todos_text, toggle_confirmation, TodoEntry};
use glowbot::tools::{format_tools_output, McpToolInfo, ToolDefinition};

#[test]
fn usize_parsing_follows_from_str() {
    assert_eq!(parse_usize("0"), Some(0));
    assert_eq!(parse_usize("42"), Some(42));
    assert_eq!(parse_usize("+7"), Some(7));
    assert_eq!(parse_usize(""), None);
    assert_eq!(parse_usize("-1"), None);
    assert_eq!(parse_usize("1a"), None);
    assert_eq!(parse_usize("18446744073709551615"), Some(usize::MAX));
    assert_eq!(parse_usize("18446744073709551616"), None);
}

#[test]
fn model_callbacks() {
    assert!(matches!(parse_model_callback("model:menu"), Some(ModelCallback::Menu)));
    assert!(matches!(
        parse_model_callback("model:provider:codex"),
        Some(ModelCallback::Provider(LlmProvider::Codex))
    ));
    assert!(parse_model_callback("model:provider:other").is_none());
    match parse_model_callback("model:browse:provider:openai:2") {
        Some(ModelCallback::Browse { category, provider, page }) => {
            assert_eq!(category, "provider");
            assert_eq!(provider.as_deref(), Some("openai"));
            assert_eq!(page, 2);
        }
        _ => panic!("expected a browse callback"),
    }
    match parse_model_callback("model:browse:free:x") {
        Some(ModelCallback::Browse { category, provider, page }) => {
            assert_eq!(category, "free");
            assert!(provider.is_none());
            assert_eq!(page, 0);
        }
        _ => panic!("expected a browse callback"),
    }
    match parse_model_callback("model:detail:openai/gpt-4:turbo") {
        Some(ModelCallback::Detail(id)) => assert_eq!(id, "openai/gpt-4:turbo"),
        _ => panic!("expected a detail callback"),
    }
    match parse_model_callback("model:select:openai/gpt-4") {
        Some(ModelCallback::Select(id)) => assert_eq!(id, "openai/gpt-4"),
        _ => panic!("expected a select callback"),
    }
    match parse_model_callback("s:openai/gpt-4:free") {
        Some(ModelCallback::Select(id)) => assert_eq!(id, "openai/gpt-4:free"),
        _ => panic!("expected a short select callback"),
    }
    match parse_model_callback(&glowbot::models::detail_cb(&"a".repeat(60))) {
        Some(ModelCallback::Detail(id)) => assert_eq!(id, "a".repeat(60)),
        _ => panic!("expected a short detail callback"),
    }
    assert!(matches!(parse_model_callback("model:browseback"), Some(ModelCallback::BrowseBack)));
    assert!(matches!(
        parse_model_callback("model:provider_list:3"),
        Some(ModelCallback::ProviderList(3))
    ));
    assert!(parse_model_callback("nothing").is_none());
}

#[test]
fn todo_callbacks() {
    assert!(matches!(parse_todo_callback("todo:close"), Some(TodoCallback::Close)));
    assert!(matches!(parse_todo_callback("todo:menu:2"), Some(TodoCallback::Menu(Some(2)))));
    assert!(matches!(parse_todo_callback("todo:menu:x"), Some(TodoCallback::Menu(None))));
    match parse_todo_callback("todo:toggle:abc") {
        Some(TodoCallback::Toggle(id)) => assert_eq!(id, "abc"),
        _ => panic!("expected a toggle"),
    }
    assert!(parse_todo_callback("model:menu").is_none());
    assert!(parse_todo_callback("todo:other").is_none());
}

fn todo(id: &str, description: &str, completed: bool) -> TodoEntry {
    TodoEntry {
        id: id.into(),
        description: description.into(),
        completed,
        created_at: "2024-01-01".into(),
        updated_at: None,
    }
}

#[test]
fn todo_texts_and_menus() {
    assert_eq!(todos_text(&vec![], false), "No todos for this chat.");
    let list = vec![todo("a1", "buy milk", false), todo("b2", "call mom", true)];
    assert_eq!(todos_text(&list, false), "*2 todo(s):*\n1. ⬜ buy milk\n2. ✅ call mom");
    assert_eq!(
        todos_text(&list, true),
        "*2 todo(s) (detailed):*\n1. ⬜ `a1` — buy milk\n   Created: 2024-01-01 | Updated: never\n2. ✅ `b2` — call mom\n   Created: 2024-01-01 | Updated: never"
    );
    let empty = todo_menu(&vec![], 0);
    assert_eq!(empty.text, "✅ *All done\\!* No todos remaining.");
    assert!(empty.rows.is_empty());
    let many: Vec<TodoEntry> = (0..10).map(|i| todo(&format!("t{}", i), "x", false)).collect();
    let page = todo_menu(&many, 5);
    assert_eq!(page.text, "*Todos \\(9—10 of 10\\):*");
    assert_eq!(page.rows.len(), 4);
    assert_eq!(page.rows[0][0].data, "todo:toggle:t8");
    assert_eq!(page.rows[2][0].label, "◀️ Prev");
    assert_eq!(page.rows[2][0].data, "todo:menu:0");
    assert_eq!(page.rows[2][1].label, "2/2");
    assert_eq!(page.rows[3][0].data, "todo:close");
    assert_eq!(toggle_confirmation(true, "x"), "Marked done ✅: x");
    assert_eq!(toggle_confirmation(false, "x"), "Marked reopened 🔄: x");
}

#[test]
fn tool_results_over_the_limit_are_replaced() {
    assert_eq!(cap_tool_result("short", Some(10)), "short");
    assert_eq!(cap_tool_result("anything", None), "anything");
    let capped = cap_tool_result(&"x".repeat(20), Some(10));
    assert_ne!(capped, "x".repeat(20));
    assert!(capped.contains("20"));
    assert!(capped.contains("10"));
    // the limit counts characters: three two-byte characters fit in 3
    assert_eq!(cap_tool_result("ééé", Some(3)), "ééé");
    assert!(cap_tool_result("éééé", Some(3)).contains("(4 chars, limit is 3 chars)"));
}

#[test]
fn embedding_chunks() {
    assert_eq!(chunk_for_embedding("abcdef", 0, true), vec!["abcdef"]);
    assert_eq!(chunk_for_embedding("abcdef", 4, false), vec!["abcd"]);
    assert_eq!(chunk_for_embedding("abcdef", 4, true), vec!["abcd", "ef"]);
    assert_eq!(chunk_for_embedding("abcdefgh", 4, true).concat(), "abcdefgh");
    assert_eq!(chunk_for_embedding("abc", 4, true), vec!["abc"]);
}

#[test]
fn media_choices() {
    assert_eq!(media_kind("jpg", false), MediaKind::Photo);
    assert_eq!(media_kind("mp4", false), MediaKind::Video);
    assert_eq!(media_kind("ogg", false), MediaKind::Audio);
    assert_eq!(media_kind("pdf", false), MediaKind::Document);
    assert_eq!(media_kind("jpg", true), MediaKind::Document);
    assert_eq!(image_count(None), 1);
    assert_eq!(image_count(Some(0)), 1);
    assert_eq!(image_count(Some(3)), 3);
    assert_eq!(image_count(Some(9)), 4);
    assert_eq!(
        generated_image_path("google/imagen-4:fast", "20240101", 1, 0, "png"),
        "generated/imagen-4_fast_20240101.png"
    );
    assert_eq!(
        generated_image_path("a.b", "t", 2, 1, "jpg"),
        "generated/a_b_t_2.jpg"
    );
    assert_eq!(resolve_file_path("/abs/x.png", "/data", true, true), "/abs/x.png");
    assert_eq!(resolve_file_path("x.png", "/data", true, true), "/data/x.png");
    assert_eq!(resolve_file_path("x.png", "/data/", false, true), "/media/x.png");
    assert_eq!(resolve_file_path("x.png", "/data", false, false), "/data/x.png");
}

#[test]
fn provider_choices() {
    assert_eq!(parse_provider("openrouter"), Some(LlmProvider::Openrouter));
    assert_eq!(parse_provider("codex"), Some(LlmProvider::Codex));
    assert_eq!(parse_provider("Codex"), None);
    assert!(is_known_codex_model("gpt-5.5"));
    assert!(!is_known_codex_model("gpt-4"));
    let rows = provider_menu_rows(true);
    assert_eq!(rows.len(), 2);
    assert_eq!(rows[0][0].data, "model:provider:openrouter");
    assert_eq!(rows[1][0].data, "model:provider:codex");
    assert_eq!(provider_menu_rows(false).len(), 1);
}

#[test]
fn tools_listing() {
    let builtin = vec![
        ToolDefinition { name: "bash".into(), description: "Run a command".into() },
        ToolDefinition { name: "mcp_home_lights".into(), description: "Lights".into() },
        ToolDefinition { name: "mcp_dl_fetch".into(), description: "Fetch".into() },
    ];
    let mcp = vec![
        McpToolInfo { server_name: "home".into(), name: "lights".into(), description: "Lights".into() },
        McpToolInfo { server_name: "dl".into(), name: "fetch".into(), description: "Fetch".into() },
    ];
    let all = vec![
        McpToolInfo { server_name: "home".into(), name: "lights".into(), description: "Lights".into() },
        McpToolInfo { server_name: "home".into(), name: "heat".into(), description: "Heat".into() },
        McpToolInfo { server_name: "dl".into(), name: "fetch".into(), description: "Fetch".into() },
    ];
    let blacklisted = vec![McpToolInfo {
        server_name: "home".into(),
        name: "heat".into(),
        description: "Heat".into(),
    }];
    let servers = vec![
        McpServer { name: "home".into(), transport: "http".into(), url: "http://h".into(), api_key: None },
        McpServer { name: "dl".into(), transport: "streamable".into(), url: "http://d".into(), api_key: None },
    ];
    let out = format_tools_output(&builtin, &mcp, &all, &blacklisted, &servers);
    assert_eq!(
        out,
        "🛠 *Available Tools*\n\n*MCP Servers:*\n• `home` (http://h, http) — 1 available, 1 blacklisted for this chat\n• `dl` (http://d, streamable) — 1 tool(s)\n\n*Built-in:*\n• `bash` — Run a command\n\n*MCP: dl*\n• `mcp_dl_fetch` — Fetch\n\n*MCP: home*\n• `mcp_home_lights` — Lights\n"
    );
}
