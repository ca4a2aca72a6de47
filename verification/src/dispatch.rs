//! The first step of a tool call made by the assistant: checking its
//! arguments and deciding what to do, or what to answer right away.

use vstd::prelude::*;
use crate::text::{contains_seq, decimal, has_prefix, has_suffix, occurs_at, push_str, str_eq, to_owned, u64_to_decimal};

verus! {

/// Whether `chrono::DateTime::parse_from_rfc3339` accepts `s`.
pub uninterp spec fn rfc3339_accepts(s: Seq<char>) -> bool;

/// Whether `s` is an RFC 3339 timestamp.
///
/// Calls `chrono::DateTime::parse_from_rfc3339`; the contract names whether
/// it succeeds, which depends on the text alone.
#[verifier::external_body]
fn rfc3339_valid(s: &str) -> (b: bool)
    ensures
        b == rfc3339_accepts(s@),
{
    chrono::DateTime::parse_from_rfc3339(s).is_ok()
}

/// The arguments of a tool call that the first step reads: for each name,
/// the string given under it (`None` when it is missing or not a string),
/// and the boolean given under `completed`.
pub struct ToolArgs {
    pub text: Option<String>,
    pub command: Option<String>,
    pub description: Option<String>,
    pub id: Option<String>,
    pub trigger_at: Option<String>,
    pub action: Option<String>,
    pub completed: Option<bool>,
    pub query: Option<String>,
    /// The integer given under `count`, when it fits in an `i64`.
    pub count: Option<i64>,
}

/// What the first step needs to know of the chat.
pub struct ToolContext {
    /// Whether the bash tool is enabled in the chat.
    pub bash_enabled: bool,
    /// Whether messages can be sent (a Telegram client is at hand).
    pub can_send: bool,
    /// Whether an embedding model is configured.
    pub has_embedding_model: bool,
}

/// What a tool call leads to.
#[derive(Debug, Clone, PartialEq, Eq)]
pub enum ToolAction {
    /// Answer the assistant with this text and do nothing else.
    Reply(String),
    SendMessage { text: String },
    RunBash { command: String },
    AddTask { description: String },
    RemoveTask { id: String },
    CreateReminder { description: String, trigger_at: String, action: Option<String> },
    RemoveReminder { id: String },
    CreateTodo { description: String },
    EditTodo { id: String, new_description: Option<String>, completed: Option<bool> },
    DeleteTodo { id: String },
    /// Load this many of the chat's latest messages.
    RecentMessages { count: usize },
    /// Search the chat's history for messages like `query`.
    SearchConversations { query: String, count: usize },
    /// A tool whose arguments its own handler reads.
    Delegate,
}

/// A string argument as the tool reads it: the empty string when missing.
pub open spec fn arg_text(a: Option<String>) -> Seq<char> {
    match a {
        Some(s) => s@,
        None => Seq::empty(),
    }
}

/// The names of the built-in tools.
pub open spec fn builtin_tool_names() -> Seq<Seq<char>> {
    seq![
        "send_message"@,
        "list_media"@,
        "send_media"@,
        "bash"@,
        "read_memory"@,
        "update_memory"@,
        "read_chat_memory"@,
        "update_chat_memory"@,
        "add_task"@,
        "list_tasks"@,
        "remove_task"@,
        "create_reminder"@,
        "list_reminders"@,
        "remove_reminder"@,
        "generate_image"@,
        "describe_image"@,
        "create_skill"@,
        "read_skill"@,
        "update_skill"@,
        "create_todo"@,
        "list_todos"@,
        "edit_todo"@,
        "delete_todo"@,
        "get_recent_messages"@,
        "read_config_schema"@,
        "read_config"@,
        "edit_config"@,
        "get_model_info"@,
        "propose_model_change"@,
        "ask_advisor"@,
        "search_conversations"@,
    ]
}

/// Whether `name` is a tool: a built-in one, or one of an MCP server
/// (`mcp_<server>_<tool>`).
pub open spec fn is_known_tool(name: Seq<char>) -> bool {
    builtin_tool_names().contains(name) || crate::text::has_prefix(name, "mcp_"@)
}

fn builtin_names() -> (v: Vec<&'static str>)
    ensures
        v@.map_values(|s: &str| s@) == builtin_tool_names(),
{
    let mut v: Vec<&'static str> = Vec::new();
    v.push("send_message");
    v.push("list_media");
    v.push("send_media");
    v.push("bash");
    v.push("read_memory");
    v.push("update_memory");
    v.push("read_chat_memory");
    v.push("update_chat_memory");
    v.push("add_task");
    v.push("list_tasks");
    v.push("remove_task");
    v.push("create_reminder");
    v.push("list_reminders");
    v.push("remove_reminder");
    v.push("generate_image");
    v.push("describe_image");
    v.push("create_skill");
    v.push("read_skill");
    v.push("update_skill");
    v.push("create_todo");
    v.push("list_todos");
    v.push("edit_todo");
    v.push("delete_todo");
    v.push("get_recent_messages");
    v.push("read_config_schema");
    v.push("read_config");
    v.push("edit_config");
    v.push("get_model_info");
    v.push("propose_model_change");
    v.push("ask_advisor");
    v.push("search_conversations");
    assert(v@.map_values(|s: &str| s@) =~= builtin_tool_names());
    v
}

fn known_tool(name: &str) -> (r: bool)
    ensures
        r == is_known_tool(name@),
{
    let v = builtin_names();
    let ghost all = v@.map_values(|s: &str| s@);
    let n = v.len();
    let mut i: usize = 0;
    while i < n
        invariant
            n == v@.len(),
            all == v@.map_values(|s: &str| s@),
            all == builtin_tool_names(),
            i <= n,
            forall|j: int| 0 <= j < i ==> all[j] != name@,
        decreases n - i,
    {
        if str_eq(v[i], name) {
            assert(all[i as int] == name@);
            return true;
        }
        i += 1;
    }
    assert(!builtin_tool_names().contains(name@)) by {
        if builtin_tool_names().contains(name@) {
            let j = choose|j: int| 0 <= j < all.len() && all[j] == name@;
            assert(all[j] != name@);
        }
    }
    crate::text::starts_with(name, "mcp_")
}

/// `n` kept between `low` and `high`.
pub open spec fn clamp_count(n: usize, low: usize, high: usize) -> usize {
    if n < low {
        low
    } else if n > high {
        high
    } else {
        n
    }
}

/// The `count` argument (`default` when missing) taken as a `usize` and
/// kept between `low` and `high`.
pub open spec fn count_arg(count: Option<i64>, default: usize, low: usize, high: usize) -> usize {
    clamp_count(
        match count {
            Some(c) => c as usize,
            None => default,
        },
        low,
        high,
    )
}

fn count_arg_exec(count: Option<i64>, default: usize, low: usize, high: usize) -> (r: usize)
    ensures
        r == count_arg(count, default, low, high),
{
    let n: usize = match count {
        Some(c) => c as usize,
        None => default,
    };
    if n < low {
        low
    } else if n > high {
        high
    } else {
        n
    }
}

/// Whether `r` is the action for `name` with `args` in `ctx`:
/// - `send_message` needs a text and a Telegram client;
/// - `bash` needs the tool enabled in the chat;
/// - `add_task`, `create_todo` need a description; `remove_task`,
///   `remove_reminder`, `delete_todo` an ID;
/// - `create_reminder` needs a description and an RFC 3339 `trigger_at`;
/// - `edit_todo` needs an ID and a new description (not empty) or a
///   `completed` flag;
/// - `get_recent_messages` loads 1 to 50 messages (10 by default);
/// - `search_conversations` needs a query and an embedding model, and finds
///   1 to 10 messages (5 by default);
/// - every other tool is left to its handler;
/// - a name that is no tool gets `Unknown tool: <name>`.
pub open spec fn tool_step_matches(r: ToolAction, name: Seq<char>, args: ToolArgs, ctx: ToolContext) -> bool {
    if name == "send_message"@ {
        if arg_text(args.text).len() == 0 {
            r matches ToolAction::Reply(t) && t@ == "Error: text required"@
        } else if !ctx.can_send {
            r matches ToolAction::Reply(t) && t@ == "Error: send_message not available in this context."@
        } else {
            r matches ToolAction::SendMessage { text } && text@ == arg_text(args.text)
        }
    } else if name == "bash"@ {
        if !ctx.bash_enabled {
            r matches ToolAction::Reply(t) && t@
                == "Error: bash is disabled for this chat. Enable it in config or ask an admin."@
        } else {
            r matches ToolAction::RunBash { command } && command@ == arg_text(args.command)
        }
    } else if name == "add_task"@ || name == "create_todo"@ {
        if arg_text(args.description).len() == 0 {
            r matches ToolAction::Reply(t) && t@ == "Error: description required"@
        } else if name == "add_task"@ {
            r matches ToolAction::AddTask { description } && description@ == arg_text(args.description)
        } else {
            r matches ToolAction::CreateTodo { description } && description@ == arg_text(
                args.description,
            )
        }
    } else if name == "remove_task"@ || name == "remove_reminder"@ || name == "delete_todo"@ {
        if arg_text(args.id).len() == 0 {
            r matches ToolAction::Reply(t) && t@ == "Error: id required"@
        } else if name == "remove_task"@ {
            r matches ToolAction::RemoveTask { id } && id@ == arg_text(args.id)
        } else if name == "remove_reminder"@ {
            r matches ToolAction::RemoveReminder { id } && id@ == arg_text(args.id)
        } else {
            r matches ToolAction::DeleteTodo { id } && id@ == arg_text(args.id)
        }
    } else if name == "create_reminder"@ {
        let desc = arg_text(args.description);
        let trigger = arg_text(args.trigger_at);
        if desc.len() == 0 || trigger.len() == 0 {
            r matches ToolAction::Reply(t) && t@ == "Error: description and trigger_at required"@
        } else if !rfc3339_accepts(trigger) {
            r matches ToolAction::Reply(t) && t@
                == "Error: trigger_at must be a valid ISO 8601 timestamp in UTC (e.g. '2026-05-11T18:00:00Z'), got: "@
                + trigger
        } else {
            r matches ToolAction::CreateReminder { description, trigger_at, action }
                && description@ == desc && trigger_at@ == trigger && crate::config::ostr(action)
                == crate::config::ostr(args.action)
        }
    } else if name == "edit_todo"@ {
        if arg_text(args.id).len() == 0 {
            r matches ToolAction::Reply(t) && t@ == "Error: id required"@
        } else if args.description is None && args.completed is None {
            r matches ToolAction::Reply(t) && t@
                == "Error: at least one of 'description' or 'completed' must be provided"@
        } else if args.description matches Some(d) && d@.len() == 0 {
            r matches ToolAction::Reply(t) && t@ == "Error: description must not be empty"@
        } else {
            r matches ToolAction::EditTodo { id, new_description, completed } && id@ == arg_text(args.id)
                && crate::config::ostr(new_description) == crate::config::ostr(args.description)
                && completed == args.completed
        }
    } else if name == "get_recent_messages"@ {
        r == ToolAction::RecentMessages { count: count_arg(args.count, 10, 1, 50) }
    } else if name == "search_conversations"@ {
        if arg_text(args.query).len() == 0 {
            r matches ToolAction::Reply(t) && t@ == "Error: query required"@
        } else if !ctx.has_embedding_model {
            r matches ToolAction::Reply(t) && t@ == "Error: embedding model not configured"@
        } else {
            r matches ToolAction::SearchConversations { query, count } && query@ == arg_text(args.query)
                && count == count_arg(args.count, 5, 1, 10)
        }
    } else if is_known_tool(name) {
        r is Delegate
    } else {
        r matches ToolAction::Reply(t) && t@ == "Unknown tool: "@ + name
    }
}

fn arg_or_empty(a: &Option<String>) -> (r: String)
    ensures
        r@ == arg_text(*a),
{
    match a {
        Some(s) => to_owned(s.as_str()),
        None => String::new(),
    }
}

fn copy_opt(a: &Option<String>) -> (r: Option<String>)
    ensures
        crate::config::ostr(r) == crate::config::ostr(*a),
{
    match a {
        Some(s) => Some(to_owned(s.as_str())),
        None => None,
    }
}

fn reply(t: &str) -> (r: ToolAction)
    ensures
        r matches ToolAction::Reply(s) && s@ == t@,
{
    ToolAction::Reply(to_owned(t))
}

/// The first step of the tool call `name` with `args`.
pub fn tool_step(name: &str, args: &ToolArgs, ctx: &ToolContext) -> (r: ToolAction)
    ensures
        tool_step_matches(r, name@, *args, *ctx),
{
    proof {
        reveal_strlit("send_message");
        reveal_strlit("bash");
        reveal_strlit("add_task");
        reveal_strlit("create_todo");
        reveal_strlit("remove_task");
        reveal_strlit("remove_reminder");
        reveal_strlit("delete_todo");
        reveal_strlit("create_reminder");
        reveal_strlit("edit_todo");
        reveal_strlit("get_recent_messages");
        reveal_strlit("search_conversations");
    }
    if str_eq(name, "send_message") {
        let text = arg_or_empty(&args.text);
        if text.as_str().unicode_len() == 0 {
            return reply("Error: text required");
        }
        if !ctx.can_send {
            return reply("Error: send_message not available in this context.");
        }
        return ToolAction::SendMessage { text };
    }
    if str_eq(name, "bash") {
        if !ctx.bash_enabled {
            return reply(
                "Error: bash is disabled for this chat. Enable it in config or ask an admin.",
            );
        }
        return ToolAction::RunBash { command: arg_or_empty(&args.command) };
    }
    if str_eq(name, "add_task") || str_eq(name, "create_todo") {
        let description = arg_or_empty(&args.description);
        if description.as_str().unicode_len() == 0 {
            return reply("Error: description required");
        }
        if str_eq(name, "add_task") {
            return ToolAction::AddTask { description };
        }
        return ToolAction::CreateTodo { description };
    }
    if str_eq(name, "remove_task") || str_eq(name, "remove_reminder") || str_eq(
        name,
        "delete_todo",
    ) {
        let id = arg_or_empty(&args.id);
        if id.as_str().unicode_len() == 0 {
            return reply("Error: id required");
        }
        if str_eq(name, "remove_task") {
            return ToolAction::RemoveTask { id };
        }
        if str_eq(name, "remove_reminder") {
            return ToolAction::RemoveReminder { id };
        }
        return ToolAction::DeleteTodo { id };
    }
    if str_eq(name, "create_reminder") {
        let description = arg_or_empty(&args.description);
        let trigger_at = arg_or_empty(&args.trigger_at);
        if description.as_str().unicode_len() == 0 || trigger_at.as_str().unicode_len() == 0 {
            return reply("Error: description and trigger_at required");
        }
        if !rfc3339_valid(trigger_at.as_str()) {
            let mut t = to_owned(
                "Error: trigger_at must be a valid ISO 8601 timestamp in UTC (e.g. '2026-05-11T18:00:00Z'), got: ",
            );
            push_str(&mut t, trigger_at.as_str());
            return ToolAction::Reply(t);
        }
        return ToolAction::CreateReminder { description, trigger_at, action: copy_opt(&args.action) };
    }
    if str_eq(name, "edit_todo") {
        let id = arg_or_empty(&args.id);
        if id.as_str().unicode_len() == 0 {
            return reply("Error: id required");
        }
        if args.description.is_none() && args.completed.is_none() {
            return reply("Error: at least one of 'description' or 'completed' must be provided");
        }
        if let Some(d) = &args.description {
            if d.as_str().unicode_len() == 0 {
                return reply("Error: description must not be empty");
            }
        }
        return ToolAction::EditTodo {
            id,
            new_description: copy_opt(&args.description),
            completed: args.completed,
        };
    }
    if str_eq(name, "get_recent_messages") {
        return ToolAction::RecentMessages { count: count_arg_exec(args.count, 10, 1, 50) };
    }
    if str_eq(name, "search_conversations") {
        let query = arg_or_empty(&args.query);
        if query.as_str().unicode_len() == 0 {
            return reply("Error: query required");
        }
        if !ctx.has_embedding_model {
            return reply("Error: embedding model not configured");
        }
        return ToolAction::SearchConversations {
            query,
            count: count_arg_exec(args.count, 5, 1, 10),
        };
    }
    if known_tool(name) {
        return ToolAction::Delegate;
    }
    let mut t = to_owned("Unknown tool: ");
    push_str(&mut t, name);
    ToolAction::Reply(t)
}


/// A shell command runs only in a chat where the bash tool is enabled, and
/// a message is sent only with a text and a Telegram client at hand.
pub proof fn lemma_guarded_actions(r: ToolAction, name: Seq<char>, args: ToolArgs, ctx: ToolContext)
    requires
        tool_step_matches(r, name, args, ctx),
    ensures
        r is RunBash ==> ctx.bash_enabled,
        r is SendMessage ==> ctx.can_send && arg_text(args.text).len() > 0,
        r is CreateReminder ==> rfc3339_accepts(arg_text(args.trigger_at)),
{
}

/// Every action belongs to the tool that was called, carries that call's own
/// arguments, and every direct answer is an error message or the
/// `Unknown tool` answer for a name that is no tool.
pub proof fn lemma_action_follows_call(r: ToolAction, name: Seq<char>, args: ToolArgs, ctx: ToolContext)
    requires
        tool_step_matches(r, name, args, ctx),
    ensures
        r matches ToolAction::SendMessage { text } ==> name == "send_message"@ && text@ == arg_text(args.text),
        r matches ToolAction::RunBash { command } ==> name == "bash"@ && command@ == arg_text(args.command),
        r matches ToolAction::AddTask { description } ==> name == "add_task"@ && description@ == arg_text(
            args.description,
        ),
        r matches ToolAction::CreateTodo { description } ==> name == "create_todo"@ && description@
            == arg_text(args.description),
        r matches ToolAction::RemoveTask { id } ==> name == "remove_task"@ && id@ == arg_text(args.id),
        r matches ToolAction::RemoveReminder { id } ==> name == "remove_reminder"@ && id@ == arg_text(args.id),
        r matches ToolAction::DeleteTodo { id } ==> name == "delete_todo"@ && id@ == arg_text(args.id),
        r matches ToolAction::CreateReminder { description, trigger_at, .. } ==> name == "create_reminder"@
            && description@ == arg_text(args.description) && trigger_at@ == arg_text(args.trigger_at),
        r matches ToolAction::EditTodo { id, completed, .. } ==> name == "edit_todo"@ && id@ == arg_text(args.id)
            && completed == args.completed,
        r is RecentMessages ==> name == "get_recent_messages"@,
        r matches ToolAction::SearchConversations { query, .. } ==> name == "search_conversations"@ && query@
            == arg_text(args.query),
        r is Delegate ==> is_known_tool(name),
        r matches ToolAction::Reply(t) ==> has_prefix(t@, "Error: "@) || (t@ == "Unknown tool: "@ + name
            && !is_known_tool(name)),
{
    reveal_strlit("Error: ");
    reveal_strlit("Error: text required");
    reveal_strlit("Error: send_message not available in this context.");
    reveal_strlit("Error: bash is disabled for this chat. Enable it in config or ask an admin.");
    reveal_strlit("Error: description required");
    reveal_strlit("Error: id required");
    reveal_strlit("Error: description and trigger_at required");
    reveal_strlit(
        "Error: trigger_at must be a valid ISO 8601 timestamp in UTC (e.g. '2026-05-11T18:00:00Z'), got: ",
    );
    reveal_strlit("Error: at least one of 'description' or 'completed' must be provided");
    reveal_strlit("Error: description must not be empty");
    reveal_strlit("Error: query required");
    reveal_strlit("Error: embedding model not configured");
    let e = "Error: "@;
    assert("Error: text required"@.subrange(0, 7) =~= e);
    assert("Error: send_message not available in this context."@.subrange(0, 7) =~= e);
    assert("Error: bash is disabled for this chat. Enable it in config or ask an admin."@.subrange(0, 7) =~= e);
    assert("Error: description required"@.subrange(0, 7) =~= e);
    assert("Error: id required"@.subrange(0, 7) =~= e);
    assert("Error: description and trigger_at required"@.subrange(0, 7) =~= e);
    assert("Error: at least one of 'description' or 'completed' must be provided"@.subrange(0, 7) =~= e);
    assert("Error: description must not be empty"@.subrange(0, 7) =~= e);
    assert("Error: query required"@.subrange(0, 7) =~= e);
    assert("Error: embedding model not configured"@.subrange(0, 7) =~= e);
    let x = "Error: trigger_at must be a valid ISO 8601 timestamp in UTC (e.g. '2026-05-11T18:00:00Z'), got: "@
        + arg_text(args.trigger_at);
    assert(x.subrange(0, 7) =~= e);
}

/// How many messages a history tool looks at: the recent messages tool
/// loads 1 to 50 (10 unless told), the search finds 1 to 10 (5 unless
/// told), and a count within those bounds is taken as it is.
pub proof fn lemma_tool_counts(r: ToolAction, name: Seq<char>, args: ToolArgs, ctx: ToolContext)
    requires
        tool_step_matches(r, name, args, ctx),
    ensures
        r matches ToolAction::RecentMessages { count } ==> {
            &&& 1 <= count <= 50
            &&& args.count is None ==> count == 10
            &&& (args.count is Some && 1 <= args.count->0 <= 50) ==> count == args.count->0
        },
        r matches ToolAction::SearchConversations { count, .. } ==> {
            &&& 1 <= count <= 10
            &&& args.count is None ==> count == 5
            &&& (args.count is Some && 1 <= args.count->0 <= 10) ==> count == args.count->0
        },
{
}

/// What carrying out a tool action gave.
#[derive(Debug, Clone, PartialEq, Eq)]
pub enum ToolOutcome {
    /// The message was sent.
    Sent,
    /// The item was created under this ID.
    Added { id: String },
    /// The item was removed; this many are left.
    Removed { remaining: usize },
    /// No item has the ID.
    NotFound,
    /// The todo was edited; `now_completed` is its state after the
    /// completion flag was flipped, when it was.
    Edited { now_completed: Option<bool> },
}

/// The answer to the assistant once `action` was carried out with
/// `outcome` (`None` when the outcome does not belong to the action).
pub open spec fn tool_reply_text(action: ToolAction, outcome: ToolOutcome) -> Option<Seq<char>> {
    match (action, outcome) {
        (ToolAction::Reply(t), _) => Some(t@),
        (ToolAction::SendMessage { .. }, ToolOutcome::Sent) => Some("Message sent."@),
        (ToolAction::AddTask { description }, ToolOutcome::Added { id }) => Some(
            "Task '"@ + id@ + "' added: "@ + description@,
        ),
        (ToolAction::CreateTodo { description }, ToolOutcome::Added { id }) => Some(
            "Todo created: "@ + id@ + " — "@ + description@,
        ),
        (ToolAction::CreateReminder { description, trigger_at, .. }, ToolOutcome::Added { id }) => Some(
            "Reminder '"@ + id@ + "' created for "@ + trigger_at@ + ": "@ + description@,
        ),
        (ToolAction::RemoveTask { id }, ToolOutcome::Removed { remaining }) => Some(
            "Task '"@ + id@ + "' removed. "@ + decimal(remaining as nat) + " remaining."@,
        ),
        (ToolAction::RemoveTask { id }, ToolOutcome::NotFound) => Some(
            "Task '"@ + id@ + "' not found."@,
        ),
        (ToolAction::RemoveReminder { id }, ToolOutcome::Removed { remaining }) => Some(
            "Reminder '"@ + id@ + "' removed. "@ + decimal(remaining as nat) + " remaining."@,
        ),
        (ToolAction::RemoveReminder { id }, ToolOutcome::NotFound) => Some(
            "Reminder '"@ + id@ + "' not found."@,
        ),
        (ToolAction::DeleteTodo { id }, ToolOutcome::Removed { remaining }) => Some(
            "Todo '"@ + id@ + "' deleted. "@ + decimal(remaining as nat) + " remaining."@,
        ),
        (ToolAction::DeleteTodo { id }, ToolOutcome::NotFound) => Some(
            "Todo '"@ + id@ + "' not found."@,
        ),
        (ToolAction::EditTodo { id, .. }, ToolOutcome::NotFound) => Some(
            "Todo '"@ + id@ + "' not found."@,
        ),
        (ToolAction::EditTodo { id, new_description, .. }, ToolOutcome::Edited { now_completed }) => {
            let desc_part = match new_description {
                Some(d) => seq!["description updated to '"@ + d@ + "'"@],
                None => Seq::empty(),
            };
            let done_part = match now_completed {
                Some(true) => seq!["marked as completed"@],
                Some(false) => seq!["marked as not completed"@],
                None => Seq::empty(),
            };
            Some("Todo '"@ + id@ + "': "@ + crate::text::join_seq(desc_part + done_part, ", "@))
        },
        _ => None,
    }
}

/// The answer after a tool ran reports what happened to the item the call
/// named: a created item by the ID it got, a removed one with how many are
/// left, and an item that does not exist as not found; a direct answer is
/// passed on as it is, and an outcome that does not belong to the action
/// gets no answer.
pub proof fn lemma_tool_reply_reports(action: ToolAction, outcome: ToolOutcome)
    ensures
        action matches ToolAction::Reply(t) ==> tool_reply_text(action, outcome) == Some(t@),
        ((action is RemoveTask || action is RemoveReminder || action is DeleteTodo || action is EditTodo)
            && outcome is NotFound) ==> (tool_reply_text(action, outcome) is Some && has_suffix(
            tool_reply_text(action, outcome)->0,
            "' not found."@,
        )),
        ((action is RemoveTask || action is RemoveReminder || action is DeleteTodo) && outcome is Removed)
            ==> (tool_reply_text(action, outcome) is Some && has_suffix(
            tool_reply_text(action, outcome)->0,
            ". "@ + decimal(outcome->remaining as nat) + " remaining."@,
        )),
        ((action is AddTask || action is CreateTodo || action is CreateReminder) && outcome is Added) ==> (
        tool_reply_text(action, outcome) is Some && contains_seq(
            tool_reply_text(action, outcome)->0,
            outcome->id@,
        )),
        action is SendMessage ==> (tool_reply_text(action, outcome) is Some <==> outcome is Sent),
        outcome is Sent && !(action is SendMessage) && !(action is Reply) ==> tool_reply_text(action, outcome) is None,
{
    reveal_strlit("' removed. ");
    reveal_strlit("' deleted. ");
    reveal_strlit("' removed");
    reveal_strlit("' deleted");
    reveal_strlit(". ");
    match (action, outcome) {
        (ToolAction::RemoveTask { id }, ToolOutcome::NotFound) => {
            let x = "Task '"@ + id@ + "' not found."@;
            let t = "' not found."@;
            assert(x.subrange(x.len() - t.len(), x.len() as int) =~= t);
        },
        (ToolAction::RemoveReminder { id }, ToolOutcome::NotFound) => {
            let x = "Reminder '"@ + id@ + "' not found."@;
            let t = "' not found."@;
            assert(x.subrange(x.len() - t.len(), x.len() as int) =~= t);
        },
        (ToolAction::DeleteTodo { id }, ToolOutcome::NotFound) => {
            let x = "Todo '"@ + id@ + "' not found."@;
            let t = "' not found."@;
            assert(x.subrange(x.len() - t.len(), x.len() as int) =~= t);
        },
        (ToolAction::EditTodo { id, .. }, ToolOutcome::NotFound) => {
            let x = "Todo '"@ + id@ + "' not found."@;
            let t = "' not found."@;
            assert(x.subrange(x.len() - t.len(), x.len() as int) =~= t);
        },
        (ToolAction::RemoveTask { id }, ToolOutcome::Removed { remaining }) => {
            let t = ". "@ + decimal(remaining as nat) + " remaining."@;
            let x = "Task '"@ + id@ + "' removed"@ + t;
            assert(x =~= "Task '"@ + id@ + "' removed. "@ + decimal(remaining as nat) + " remaining."@);
            assert(x.subrange(x.len() - t.len(), x.len() as int) =~= t);
        },
        (ToolAction::RemoveReminder { id }, ToolOutcome::Removed { remaining }) => {
            let t = ". "@ + decimal(remaining as nat) + " remaining."@;
            let x = "Reminder '"@ + id@ + "' removed"@ + t;
            assert(x =~= "Reminder '"@ + id@ + "' removed. "@ + decimal(remaining as nat) + " remaining."@);
            assert(x.subrange(x.len() - t.len(), x.len() as int) =~= t);
        },
        (ToolAction::DeleteTodo { id }, ToolOutcome::Removed { remaining }) => {
            let t = ". "@ + decimal(remaining as nat) + " remaining."@;
            let x = "Todo '"@ + id@ + "' deleted"@ + t;
            assert(x =~= "Todo '"@ + id@ + "' deleted. "@ + decimal(remaining as nat) + " remaining."@);
            assert(x.subrange(x.len() - t.len(), x.len() as int) =~= t);
        },
        (ToolAction::AddTask { description }, ToolOutcome::Added { id }) => {
            let k = "Task '"@.len() as int;
            let x = "Task '"@ + id@ + "' added: "@ + description@;
            assert(x.subrange(k, k + id@.len()) =~= id@);
            assert(occurs_at(x, id@, k));
        },
        (ToolAction::CreateTodo { description }, ToolOutcome::Added { id }) => {
            let k = "Todo created: "@.len() as int;
            let x = "Todo created: "@ + id@ + " — "@ + description@;
            assert(x.subrange(k, k + id@.len()) =~= id@);
            assert(occurs_at(x, id@, k));
        },
        (ToolAction::CreateReminder { description, trigger_at, .. }, ToolOutcome::Added { id }) => {
            let k = "Reminder '"@.len() as int;
            let x = "Reminder '"@ + id@ + "' created for "@ + trigger_at@ + ": "@ + description@;
            assert(x.subrange(k, k + id@.len()) =~= id@);
            assert(occurs_at(x, id@, k));
        },
        _ => {},
    }
}

fn removed_text(kind: &str, id: &str, verb: &str, remaining: usize) -> (r: String)
    ensures
        r@ == kind@ + " '"@ + id@ + "' "@ + verb@ + ". "@ + decimal(remaining as nat)
            + " remaining."@,
{
    let mut t = to_owned(kind);
    push_str(&mut t, " '");
    push_str(&mut t, id);
    push_str(&mut t, "' ");
    push_str(&mut t, verb);
    push_str(&mut t, ". ");
    let n = u64_to_decimal(remaining as u64);
    push_str(&mut t, n.as_str());
    push_str(&mut t, " remaining.");
    t
}

fn not_found_text(kind: &str, id: &str) -> (r: String)
    ensures
        r@ == kind@ + " '"@ + id@ + "' not found."@,
{
    let mut t = to_owned(kind);
    push_str(&mut t, " '");
    push_str(&mut t, id);
    push_str(&mut t, "' not found.");
    t
}

/// The answer to the assistant once `action` was carried out with `outcome`.
pub fn tool_reply(action: &ToolAction, outcome: &ToolOutcome) -> (r: Option<String>)
    ensures
        crate::config::ostr(r) == tool_reply_text(*action, *outcome),
{
    proof {
        reveal_strlit("Task");
        reveal_strlit("Reminder");
        reveal_strlit("Todo");
        reveal_strlit(" '");
        reveal_strlit("' ");
        reveal_strlit("' not found.");
        reveal_strlit("Task '");
        reveal_strlit("Reminder '");
        reveal_strlit("Todo '");
        reveal_strlit("' removed. ");
        reveal_strlit("' deleted. ");
        reveal_strlit("removed");
        reveal_strlit("deleted");
        reveal_strlit(". ");
    }
    match (action, outcome) {
        (ToolAction::Reply(t), _) => Some(to_owned(t.as_str())),
        (ToolAction::SendMessage { .. }, ToolOutcome::Sent) => Some(to_owned("Message sent.")),
        (ToolAction::AddTask { description }, ToolOutcome::Added { id }) => {
            let mut t = to_owned("Task '");
            push_str(&mut t, id.as_str());
            push_str(&mut t, "' added: ");
            push_str(&mut t, description.as_str());
            Some(t)
        },
        (ToolAction::CreateTodo { description }, ToolOutcome::Added { id }) => {
            let mut t = to_owned("Todo created: ");
            push_str(&mut t, id.as_str());
            push_str(&mut t, " — ");
            push_str(&mut t, description.as_str());
            Some(t)
        },
        (ToolAction::CreateReminder { description, trigger_at, .. }, ToolOutcome::Added { id }) => {
            let mut t = to_owned("Reminder '");
            push_str(&mut t, id.as_str());
            push_str(&mut t, "' created for ");
            push_str(&mut t, trigger_at.as_str());
            push_str(&mut t, ": ");
            push_str(&mut t, description.as_str());
            Some(t)
        },
        (ToolAction::RemoveTask { id }, ToolOutcome::Removed { remaining }) => {
            let t = removed_text("Task", id.as_str(), "removed", *remaining);
            assert(t@ =~= "Task '"@ + id@ + "' removed. "@ + decimal(*remaining as nat)
                + " remaining."@);
            Some(t)
        },
        (ToolAction::RemoveTask { id }, ToolOutcome::NotFound) => {
            let t = not_found_text("Task", id.as_str());
            assert(t@ =~= "Task '"@ + id@ + "' not found."@);
            Some(t)
        },
        (ToolAction::RemoveReminder { id }, ToolOutcome::Removed { remaining }) => {
            let t = removed_text("Reminder", id.as_str(), "removed", *remaining);
            assert(t@ =~= "Reminder '"@ + id@ + "' removed. "@ + decimal(*remaining as nat)
                + " remaining."@);
            Some(t)
        },
        (ToolAction::RemoveReminder { id }, ToolOutcome::NotFound) => {
            let t = not_found_text("Reminder", id.as_str());
            assert(t@ =~= "Reminder '"@ + id@ + "' not found."@);
            Some(t)
        },
        (ToolAction::DeleteTodo { id }, ToolOutcome::Removed { remaining }) => {
            let t = removed_text("Todo", id.as_str(), "deleted", *remaining);
            assert(t@ =~= "Todo '"@ + id@ + "' deleted. "@ + decimal(*remaining as nat)
                + " remaining."@);
            Some(t)
        },
        (ToolAction::DeleteTodo { id }, ToolOutcome::NotFound) => {
            let t = not_found_text("Todo", id.as_str());
            assert(t@ =~= "Todo '"@ + id@ + "' not found."@);
            Some(t)
        },
        (ToolAction::EditTodo { id, .. }, ToolOutcome::NotFound) => {
            let t = not_found_text("Todo", id.as_str());
            assert(t@ =~= "Todo '"@ + id@ + "' not found."@);
            Some(t)
        },
        (ToolAction::EditTodo { id, new_description, .. }, ToolOutcome::Edited { now_completed }) => {
            let mut parts: Vec<String> = Vec::new();
            if let Some(d) = new_description {
                let mut p = to_owned("description updated to '");
                push_str(&mut p, d.as_str());
                push_str(&mut p, "'");
                parts.push(p);
            }
            match now_completed {
                Some(true) => parts.push(to_owned("marked as completed")),
                Some(false) => parts.push(to_owned("marked as not completed")),
                None => {},
            }
            let ghost desc_part = match new_description {
                Some(d) => seq!["description updated to '"@ + d@ + "'"@],
                None => Seq::<Seq<char>>::empty(),
            };
            let ghost done_part = match now_completed {
                Some(true) => seq!["marked as completed"@],
                Some(false) => seq!["marked as not completed"@],
                None => Seq::<Seq<char>>::empty(),
            };
            assert(parts@.map_values(|s: String| s@) =~= desc_part + done_part);
            let joined = crate::text::join(&parts, ", ");
            let mut t = to_owned("Todo '");
            push_str(&mut t, id.as_str());
            push_str(&mut t, "': ");
            push_str(&mut t, joined.as_str());
            Some(t)
        },
        _ => None,
    }
}

/// The first MCP tool offered under `name`, if any.
pub open spec fn mcp_lookup(tools: Seq<crate::tools::McpToolInfo>, name: Seq<char>) -> Option<
    crate::tools::McpToolInfo,
>
    decreases tools.len(),
{
    if tools.len() == 0 {
        None
    } else if crate::tools::mcp_full_name(tools[0]) == name {
        Some(tools[0])
    } else {
        mcp_lookup(tools.drop_first(), name)
    }
}

/// Where a call of the MCP tool `name` in `chat_id` goes: the server and the
/// tool's own name, or the answer when the tool is unknown or its server is
/// blacklisted in the chat.
pub open spec fn spec_mcp_route(
    tools: Seq<crate::tools::McpToolInfo>,
    config: crate::config::Config,
    chat_id: Seq<char>,
    name: Seq<char>,
) -> Result<(Seq<char>, Seq<char>), Seq<char>> {
    match mcp_lookup(tools, name) {
        None => Err("MCP tool not found: "@ + name),
        Some(t) => if !config.spec_mcp_server_allowed(chat_id, t.server_name@) {
            Err("MCP tool blacklisted for this chat: "@ + name)
        } else {
            Ok((t.server_name@, t.name@))
        },
    }
}

/// Where a call of the MCP tool `name` in `chat_id` goes.
pub fn mcp_route(
    tools: &Vec<crate::tools::McpToolInfo>,
    config: &crate::config::Config,
    chat_id: &str,
    name: &str,
) -> (r: Result<(String, String), String>)
    ensures
        match r {
            Ok((server, tool)) => spec_mcp_route(tools@, *config, chat_id@, name@) == Ok::<
                (Seq<char>, Seq<char>),
                Seq<char>,
            >((server@, tool@)),
            Err(e) => spec_mcp_route(tools@, *config, chat_id@, name@) == Err::<
                (Seq<char>, Seq<char>),
                Seq<char>,
            >(e@),
        },
{
    let n = tools.len();
    let mut i: usize = 0;
    proof {
        assert(tools@.skip(0) =~= tools@);
    }
    while i < n
        invariant
            n == tools@.len(),
            i <= n,
            mcp_lookup(tools@, name@) == mcp_lookup(tools@.skip(i as int), name@),
        decreases n - i,
    {
        assert(tools@.skip(i as int)[0] == tools@[i as int]);
        assert(tools@.skip(i as int).drop_first() =~= tools@.skip(i + 1));
        let full = crate::tools::mcp_full_name_exec(&tools[i]);
        if str_eq(full.as_str(), name) {
            let t = &tools[i];
            if !config.is_mcp_server_allowed(chat_id, t.server_name.as_str()) {
                let mut e = to_owned("MCP tool blacklisted for this chat: ");
                push_str(&mut e, name);
                return Err(e);
            }
            return Ok((to_owned(t.server_name.as_str()), to_owned(t.name.as_str())));
        }
        i += 1;
    }
    assert(tools@.skip(n as int) =~= Seq::<crate::tools::McpToolInfo>::empty());
    let mut e = to_owned("MCP tool not found: ");
    push_str(&mut e, name);
    Err(e)
}

/// Whether a file-name argument is a bare name: not empty, and no path.
pub open spec fn is_bare_name(v: Seq<char>) -> bool {
    v.len() > 0 && !v.contains('/')
}

/// For a screenshot tool (one whose name contains `screenshot`), the first
/// of its `filename` and `name` arguments that is a bare name is put under
/// `<media_dir>/pw-media/`: the argument's key and its new value.
pub open spec fn spec_screenshot_argument(
    tool_name: Seq<char>,
    filename: Option<Seq<char>>,
    name_arg: Option<Seq<char>>,
    media_dir: Seq<char>,
) -> Option<(Seq<char>, Seq<char>)> {
    if !(exists|i: int| crate::text::occurs_at(tool_name, "screenshot"@, i)) {
        None
    } else if filename matches Some(f) && is_bare_name(f) {
        Some(("filename"@, media_dir + "/pw-media/"@ + filename->0))
    } else if name_arg matches Some(v) && is_bare_name(v) {
        Some(("name"@, media_dir + "/pw-media/"@ + name_arg->0))
    } else {
        None
    }
}

fn is_bare_name_exec(v: &str) -> (r: bool)
    ensures
        r == is_bare_name(v@),
{
    v.unicode_len() > 0 && crate::text::find_char(v, '/').is_none()
}

/// The argument of a screenshot tool to point into the media directory, with
/// its new value.
pub fn screenshot_argument(
    tool_name: &str,
    filename: Option<&str>,
    name_arg: Option<&str>,
    media_dir: &str,
) -> (r: Option<(String, String)>)
    ensures
        match r {
            Some((k, v)) => spec_screenshot_argument(
                tool_name@,
                crate::config::opt_view(filename),
                crate::config::opt_view(name_arg),
                media_dir@,
            ) == Some((k@, v@)),
            None => spec_screenshot_argument(
                tool_name@,
                crate::config::opt_view(filename),
                crate::config::opt_view(name_arg),
                media_dir@,
            ) is None,
        },
{
    if crate::text::find_str(tool_name, "screenshot").is_none() {
        return None;
    }
    if let Some(f) = filename {
        if is_bare_name_exec(f) {
            let mut v = to_owned(media_dir);
            push_str(&mut v, "/pw-media/");
            push_str(&mut v, f);
            return Some((to_owned("filename"), v));
        }
    }
    if let Some(a) = name_arg {
        if is_bare_name_exec(a) {
            let mut v = to_owned(media_dir);
            push_str(&mut v, "/pw-media/");
            push_str(&mut v, a);
            return Some((to_owned("name"), v));
        }
    }
    None
}
} // verus!
