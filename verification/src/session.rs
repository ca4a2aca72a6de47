//! What a chat runs with right now: the configured settings under the
//! temporary model and provider overrides chosen with `/model`.

use vstd::prelude::*;
use crate::commands::provider_name;
use crate::config::{default_chat_view, is_group_chat, Config, LlmProvider};
use crate::text::{push_str, to_owned};
use crate::tools::McpToolInfo;

verus! {

/// The provider a chat uses: its temporary override, else the configured one.
pub open spec fn spec_effective_provider(
    config: Config,
    chat_id: Seq<char>,
    provider_override: Option<LlmProvider>,
) -> LlmProvider {
    match provider_override {
        Some(p) => p,
        None => config.spec_provider_for_chat(chat_id),
    }
}

/// The model a chat uses: its temporary model override, else (under a
/// provider override) that provider's default model, else the configured
/// model of the chat.
pub open spec fn spec_effective_model(
    config: Config,
    chat_id: Seq<char>,
    model_override: Option<Seq<char>>,
    provider_override: Option<LlmProvider>,
) -> Seq<char> {
    match model_override {
        Some(m) => m,
        None => match provider_override {
            Some(p) => config.spec_default_model_for_provider(p),
            None => config.spec_model_for_chat(chat_id),
        },
    }
}

/// The provider a chat uses.
pub fn effective_provider(
    config: &Config,
    chat_id: &str,
    provider_override: Option<LlmProvider>,
) -> (r: LlmProvider)
    ensures
        r == spec_effective_provider(*config, chat_id@, provider_override),
{
    match provider_override {
        Some(p) => p,
        None => config.provider_for_chat(chat_id),
    }
}

/// The model a chat uses.
pub fn effective_model(
    config: &Config,
    chat_id: &str,
    model_override: Option<&str>,
    provider_override: Option<LlmProvider>,
) -> (r: String)
    ensures
        r@ == spec_effective_model(
            *config,
            chat_id@,
            crate::config::opt_view(model_override),
            provider_override,
        ),
{
    match model_override {
        Some(m) => to_owned(m),
        None => match provider_override {
            Some(p) => to_owned(config.default_model_for_provider(p)),
            None => to_owned(config.model_for_chat(chat_id)),
        },
    }
}

/// The header of the `/model` menu: the model in use, its provider and,
/// under an override, the configured default it replaces.
pub open spec fn spec_model_status(
    config: Config,
    chat_id: Seq<char>,
    model_override: Option<Seq<char>>,
    provider_override: Option<LlmProvider>,
) -> Seq<char> {
    let current = spec_effective_model(config, chat_id, model_override, provider_override);
    let provider = spec_effective_provider(config, chat_id, provider_override);
    let config_default = match provider_override {
        Some(_) => config.spec_default_model_for_provider(provider),
        None => config.spec_model_for_chat(chat_id),
    };
    if model_override is Some || provider_override is Some {
        "🎯 *Current model:* `"@ + current + "` \\(override\\)\n🏷 Provider: `"@ + provider_name(
            provider,
        ) + "`\n📌 Config default: `"@ + config_default + "`\n\nBrowse models:"@
    } else {
        "🎯 *Current model:* `"@ + current + "`\n🏷 Provider: `"@ + provider_name(provider)
            + "`\n\nBrowse models:"@
    }
}

/// The header of the `/model` menu.
pub fn model_status(
    config: &Config,
    chat_id: &str,
    model_override: Option<&str>,
    provider_override: Option<LlmProvider>,
) -> (r: String)
    ensures
        r@ == spec_model_status(
            *config,
            chat_id@,
            crate::config::opt_view(model_override),
            provider_override,
        ),
{
    let current = effective_model(config, chat_id, model_override, provider_override);
    let provider = effective_provider(config, chat_id, provider_override);
    let config_default = match provider_override {
        Some(_) => config.default_model_for_provider(provider),
        None => config.model_for_chat(chat_id),
    };
    let name = match provider {
        LlmProvider::Openrouter => "openrouter",
        LlmProvider::Codex => "codex",
    };
    proof {
        reveal_strlit("openrouter");
        reveal_strlit("codex");
    }
    let mut out = to_owned("🎯 *Current model:* `");
    push_str(&mut out, current.as_str());
    if model_override.is_some() || provider_override.is_some() {
        push_str(&mut out, "` \\(override\\)\n🏷 Provider: `");
        push_str(&mut out, name);
        push_str(&mut out, "`\n📌 Config default: `");
        push_str(&mut out, config_default);
        push_str(&mut out, "`\n\nBrowse models:");
    } else {
        push_str(&mut out, "`\n🏷 Provider: `");
        push_str(&mut out, name);
        push_str(&mut out, "`\n\nBrowse models:");
    }
    out
}

/// The chat-specific part of the system prompt: a DM's own prompt when the
/// DM has an entry, else the group entry's prompt, else the default.
pub open spec fn spec_chat_system_prompt(config: Config, chat_id: Seq<char>) -> Seq<char> {
    match config.dm_entry(chat_id) {
        Some(d) => d.system_prompt,
        None => match config.chat_entry(chat_id) {
            Some(c) => c.system_prompt,
            None => default_chat_view().system_prompt,
        },
    }
}

/// The chat-specific part of the system prompt.
pub fn chat_system_prompt(config: &Config, chat_id: &str) -> (r: String)
    ensures
        r@ == spec_chat_system_prompt(*config, chat_id@),
{
    if !is_group_chat(chat_id) {
        if let Some(d) = config.dm_config(chat_id) {
            return to_owned(d.system_prompt.as_str());
        }
    }
    let c = config.chat_config(chat_id);
    c.system_prompt
}

/// The name and description under which an MCP tool is offered to the model.
pub open spec fn mcp_tool_entry(t: McpToolInfo) -> (Seq<char>, Seq<char>) {
    (
        "mcp_"@ + t.server_name@ + "_"@ + t.name@,
        "[MCP: "@ + t.server_name@ + "] "@ + t.description@,
    )
}

/// The MCP tools offered in a chat, in order: those of the servers the chat
/// does not blacklist.
pub open spec fn offered_mcp_tools(config: Config, chat_id: Seq<char>, tools: Seq<McpToolInfo>) -> Seq<
    (Seq<char>, Seq<char>),
>
    decreases tools.len(),
{
    if tools.len() == 0 {
        Seq::empty()
    } else {
        let rest = offered_mcp_tools(config, chat_id, tools.drop_last());
        let t = tools.last();
        if config.spec_mcp_server_allowed(chat_id, t.server_name@) {
            rest.push(mcp_tool_entry(t))
        } else {
            rest
        }
    }
}

/// The names and descriptions of the MCP tools offered in a chat.
pub fn offered_mcp_tool_entries(config: &Config, chat_id: &str, tools: &Vec<McpToolInfo>) -> (r: Vec<
    (String, String),
>)
    ensures
        r@.map_values(|e: (String, String)| (e.0@, e.1@)) == offered_mcp_tools(
            *config,
            chat_id@,
            tools@,
        ),
{
    let n = tools.len();
    let mut out: Vec<(String, String)> = Vec::new();
    let mut i: usize = 0;
    proof {
        assert(tools@.take(0) =~= Seq::<McpToolInfo>::empty());
        assert(out@.map_values(|e: (String, String)| (e.0@, e.1@)) =~= Seq::<
            (Seq<char>, Seq<char>),
        >::empty());
    }
    while i < n
        invariant
            n == tools@.len(),
            i <= n,
            out@.map_values(|e: (String, String)| (e.0@, e.1@)) == offered_mcp_tools(
                *config,
                chat_id@,
                tools@.take(i as int),
            ),
        decreases n - i,
    {
        let t = &tools[i];
        assert(tools@.take(i + 1).drop_last() =~= tools@.take(i as int));
        assert(tools@.take(i + 1).last() == tools@[i as int]);
        if config.is_mcp_server_allowed(chat_id, t.server_name.as_str()) {
            let mut name = to_owned("mcp_");
            push_str(&mut name, t.server_name.as_str());
            push_str(&mut name, "_");
            push_str(&mut name, t.name.as_str());
            let mut desc = to_owned("[MCP: ");
            push_str(&mut desc, t.server_name.as_str());
            push_str(&mut desc, "] ");
            push_str(&mut desc, t.description.as_str());
            let ghost before = out@.map_values(|e: (String, String)| (e.0@, e.1@));
            let ghost entry = (name@, desc@);
            out.push((name, desc));
            assert(out@.map_values(|e: (String, String)| (e.0@, e.1@)) =~= before.push(entry));
        }
        i += 1;
    }
    assert(tools@.take(n as int) =~= tools@);
    out
}

/// A temporary override wins over the configuration: a model override is
/// the model used, a provider override is the provider used and, without a
/// model override, brings that provider's default model; with no override
/// the chat runs on what the configuration gives it.
pub proof fn lemma_overrides_take_precedence(
    config: Config,
    chat_id: Seq<char>,
    model_override: Option<Seq<char>>,
    provider_override: Option<LlmProvider>,
)
    ensures
        model_override matches Some(m) ==> spec_effective_model(
            config,
            chat_id,
            model_override,
            provider_override,
        ) == m,
        provider_override matches Some(p) ==> spec_effective_provider(config, chat_id, provider_override)
            == p,
        (model_override is None && provider_override is Some) ==> spec_effective_model(
            config,
            chat_id,
            model_override,
            provider_override,
        ) == config.spec_default_model_for_provider(provider_override->0),
        model_override is None && provider_override is None ==> spec_effective_model(
            config,
            chat_id,
            model_override,
            provider_override,
        ) == config.spec_model_for_chat(chat_id) && spec_effective_provider(
            config,
            chat_id,
            provider_override,
        ) == config.spec_provider_for_chat(chat_id),
{
}

/// The MCP tools offered in a chat are those of the servers it allows, in
/// their order: offering `a + b` offers those of `a`, then those of `b`, and
/// a single tool is offered, under its prefixed name and tagged description,
/// exactly when its server is allowed.
pub proof fn lemma_offered_tools_filter(
    config: Config,
    chat_id: Seq<char>,
    a: Seq<McpToolInfo>,
    b: Seq<McpToolInfo>,
    t: McpToolInfo,
)
    ensures
        offered_mcp_tools(config, chat_id, a + b) == offered_mcp_tools(config, chat_id, a)
            + offered_mcp_tools(config, chat_id, b),
        offered_mcp_tools(config, chat_id, seq![t]) == if config.spec_mcp_server_allowed(
            chat_id,
            t.server_name@,
        ) {
            seq![("mcp_"@ + t.server_name@ + "_"@ + t.name@, "[MCP: "@ + t.server_name@ + "] "@ + t.description@)]
        } else {
            Seq::empty()
        },
    decreases b.len(),
{
    assert(seq![t].drop_last() =~= Seq::<McpToolInfo>::empty());
    assert(seq![t].last() == t);
    assert(offered_mcp_tools(config, chat_id, Seq::<McpToolInfo>::empty()) =~= Seq::<(Seq<char>, Seq<char>)>::empty());
    assert(Seq::<(Seq<char>, Seq<char>)>::empty().push(mcp_tool_entry(t)) =~= seq![mcp_tool_entry(t)]);
    if b.len() == 0 {
        assert(a + b =~= a);
        assert(offered_mcp_tools(config, chat_id, a) + Seq::<(Seq<char>, Seq<char>)>::empty() =~= offered_mcp_tools(config, chat_id, a));
    } else {
        lemma_offered_tools_filter(config, chat_id, a, b.drop_last(), t);
        assert((a + b).drop_last() =~= a + b.drop_last());
        assert((a + b).last() == b.last());
        let ra = offered_mcp_tools(config, chat_id, a);
        let rb = offered_mcp_tools(config, chat_id, b.drop_last());
        assert((ra + rb).push(mcp_tool_entry(b.last())) =~= ra + rb.push(mcp_tool_entry(b.last())));
    }
}

/// A DM with an entry of its own is prompted with that entry's system
/// prompt; any other chat with a group entry with that entry's, and a chat
/// with neither with the default one.
pub proof fn lemma_system_prompt_source(config: Config, chat_id: Seq<char>)
    ensures
        !crate::config::is_group_id(chat_id) && config.dms@.dom().contains(chat_id)
            ==> spec_chat_system_prompt(config, chat_id) == config.dms@[chat_id]@.system_prompt,
        !(!crate::config::is_group_id(chat_id) && config.dms@.dom().contains(chat_id))
            && config.chats@.dom().contains(chat_id) ==> spec_chat_system_prompt(config, chat_id)
            == config.chats@[chat_id]@.system_prompt,
        !(!crate::config::is_group_id(chat_id) && config.dms@.dom().contains(chat_id))
            && !config.chats@.dom().contains(chat_id) ==> spec_chat_system_prompt(config, chat_id)
            == default_chat_view().system_prompt,
{
}

} // verus!
