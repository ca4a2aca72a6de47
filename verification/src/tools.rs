//! The `/tools` listing: MCP servers with their tool counts, the built-in
//! tools, and the MCP tools grouped by server in name order.

use vstd::prelude::*;
use crate::config::{strs, McpServer};
use crate::order::{insert_sorted, sorted_strict};
use crate::text::{decimal, has_prefix, has_suffix, push_str, starts_with, str_eq, to_owned, u64_to_decimal};

verus! {

/// A tool offered to the model.
pub struct ToolDefinition {
    pub name: String,
    pub description: String,
}

/// A tool that an MCP server provides.
pub struct McpToolInfo {
    pub server_name: String,
    pub name: String,
    pub description: String,
}

/// How many tools of `tools` belong to server `name`.
pub open spec fn count_server(tools: Seq<McpToolInfo>, name: Seq<char>) -> nat
    decreases tools.len(),
{
    if tools.len() == 0 {
        0
    } else {
        count_server(tools.drop_last(), name) + if tools.last().server_name@ == name {
            1nat
        } else {
            0nat
        }
    }
}

/// The status part of a server line.
pub open spec fn server_status(all: nat, blacklisted: nat) -> Seq<char> {
    if blacklisted > 0 {
        " — "@ + decimal((all - blacklisted) as nat) + " available, "@ + decimal(blacklisted)
            + " blacklisted for this chat"@
    } else {
        " — "@ + decimal(all) + " tool(s)"@
    }
}

/// The line of an MCP server.
pub open spec fn server_line(
    s: McpServer,
    all: Seq<McpToolInfo>,
    blacklisted: Seq<McpToolInfo>,
) -> Seq<char> {
    "• `"@ + s.name@ + "` ("@ + s.url@ + ", "@ + s.transport@ + ")"@ + server_status(
        count_server(all, s.name@),
        count_server(blacklisted, s.name@),
    ) + "\n"@
}

/// The lines of the MCP servers, in order.
pub open spec fn server_lines(
    servers: Seq<McpServer>,
    all: Seq<McpToolInfo>,
    blacklisted: Seq<McpToolInfo>,
) -> Seq<char>
    decreases servers.len(),
{
    if servers.len() == 0 {
        Seq::empty()
    } else {
        server_lines(servers.drop_last(), all, blacklisted) + server_line(
            servers.last(),
            all,
            blacklisted,
        )
    }
}

/// Tools whose name starts with `mcp_` come from MCP servers.
pub open spec fn is_mcp_tool(t: ToolDefinition) -> bool {
    has_prefix(t.name@, "mcp_"@)
}

/// The line of a tool.
pub open spec fn tool_line(t: ToolDefinition) -> Seq<char> {
    "• `"@ + t.name@ + "` — "@ + t.description@ + "\n"@
}

/// The lines of the built-in tools, in order.
pub open spec fn builtin_lines(tools: Seq<ToolDefinition>) -> Seq<char>
    decreases tools.len(),
{
    if tools.len() == 0 {
        Seq::empty()
    } else {
        builtin_lines(tools.drop_last()) + if !is_mcp_tool(tools.last()) {
            tool_line(tools.last())
        } else {
            Seq::empty()
        }
    }
}

/// The name under which an MCP tool is offered: `mcp_<server>_<tool>`.
pub open spec fn mcp_full_name(t: McpToolInfo) -> Seq<char> {
    "mcp_"@ + t.server_name@ + "_"@ + t.name@
}

/// The server of the first MCP tool offered under `name`, or `unknown`.
pub open spec fn server_of(name: Seq<char>, mcp_tools: Seq<McpToolInfo>) -> Seq<char>
    decreases mcp_tools.len(),
{
    if mcp_tools.len() == 0 {
        "unknown"@
    } else if mcp_full_name(mcp_tools[0]) == name {
        mcp_tools[0].server_name@
    } else {
        server_of(name, mcp_tools.drop_first())
    }
}

/// The lines of the MCP tools of server `g`, in order.
pub open spec fn group_lines(
    g: Seq<char>,
    tools: Seq<ToolDefinition>,
    mcp_tools: Seq<McpToolInfo>,
) -> Seq<char>
    decreases tools.len(),
{
    if tools.len() == 0 {
        Seq::empty()
    } else {
        group_lines(g, tools.drop_last(), mcp_tools) + if is_mcp_tool(tools.last()) && server_of(
            tools.last().name@,
            mcp_tools,
        ) == g {
            tool_line(tools.last())
        } else {
            Seq::empty()
        }
    }
}

/// The sections of the servers `names`, in that order.
pub open spec fn groups_text(
    names: Seq<Seq<char>>,
    tools: Seq<ToolDefinition>,
    mcp_tools: Seq<McpToolInfo>,
) -> Seq<char>
    decreases names.len(),
{
    if names.len() == 0 {
        Seq::empty()
    } else {
        groups_text(names.drop_last(), tools, mcp_tools) + "\n*MCP: "@ + names.last() + "*\n"@
            + group_lines(names.last(), tools, mcp_tools)
    }
}

/// `g` is the server of some MCP tool among the first `k` tools.
pub open spec fn is_group_in(
    g: Seq<char>,
    tools: Seq<ToolDefinition>,
    mcp_tools: Seq<McpToolInfo>,
    k: int,
) -> bool {
    exists|j: int|
        0 <= j < k && is_mcp_tool(#[trigger] tools[j]) && server_of(tools[j].name@, mcp_tools) == g
}

/// The `/tools` listing, with the MCP groups in the order `names`.
pub open spec fn tools_listing(
    tools: Seq<ToolDefinition>,
    mcp_tools: Seq<McpToolInfo>,
    all: Seq<McpToolInfo>,
    blacklisted: Seq<McpToolInfo>,
    servers: Seq<McpServer>,
    names: Seq<Seq<char>>,
) -> Seq<char> {
    "🛠 *Available Tools*\n"@ + (if servers.len() > 0 {
        "\n*MCP Servers:*\n"@ + server_lines(servers, all, blacklisted)
    } else {
        Seq::empty()
    }) + "\n*Built-in:*\n"@ + builtin_lines(tools) + groups_text(names, tools, mcp_tools)
}

/// No server has more blacklisted tools than tools.
pub open spec fn counts_consistent(
    servers: Seq<McpServer>,
    all: Seq<McpToolInfo>,
    blacklisted: Seq<McpToolInfo>,
) -> bool {
    forall|i: int|
        0 <= i < servers.len() ==> count_server(blacklisted, #[trigger] servers[i].name@)
            <= count_server(all, servers[i].name@)
}

fn count_server_exec(tools: &Vec<McpToolInfo>, name: &str) -> (r: usize)
    ensures
        r == count_server(tools@, name@),
{
    let n = tools.len();
    let mut c: usize = 0;
    let mut i: usize = 0;
    proof {
        assert(tools@.take(0) =~= Seq::<McpToolInfo>::empty());
    }
    while i < n
        invariant
            n == tools@.len(),
            i <= n,
            c <= i,
            c == count_server(tools@.take(i as int), name@),
        decreases n - i,
    {
        assert(tools@.take(i + 1).drop_last() =~= tools@.take(i as int));
        if str_eq(tools[i].server_name.as_str(), name) {
            c = c + 1;
        }
        i += 1;
    }
    assert(tools@.take(n as int) =~= tools@);
    c
}

pub(crate) fn mcp_full_name_exec(t: &McpToolInfo) -> (r: String)
    ensures
        r@ == mcp_full_name(*t),
{
    let mut r = to_owned("mcp_");
    push_str(&mut r, t.server_name.as_str());
    push_str(&mut r, "_");
    push_str(&mut r, t.name.as_str());
    r
}

fn server_of_exec(name: &str, mcp_tools: &Vec<McpToolInfo>) -> (r: String)
    ensures
        r@ == server_of(name@, mcp_tools@),
{
    let n = mcp_tools.len();
    let mut i: usize = 0;
    proof {
        assert(mcp_tools@.skip(0) =~= mcp_tools@);
    }
    while i < n
        invariant
            n == mcp_tools@.len(),
            i <= n,
            server_of(name@, mcp_tools@) == server_of(name@, mcp_tools@.skip(i as int)),
        decreases n - i,
    {
        assert(mcp_tools@.skip(i as int)[0] == mcp_tools@[i as int]);
        assert(mcp_tools@.skip(i as int).drop_first() =~= mcp_tools@.skip(i + 1));
        let full = mcp_full_name_exec(&mcp_tools[i]);
        if str_eq(full.as_str(), name) {
            return mcp_tools[i].server_name.clone();
        }
        i += 1;
    }
    assert(mcp_tools@.skip(n as int) =~= Seq::<McpToolInfo>::empty());
    to_owned("unknown")
}

fn is_mcp_tool_exec(t: &ToolDefinition) -> (r: bool)
    ensures
        r == is_mcp_tool(*t),
{
    starts_with(t.name.as_str(), "mcp_")
}

fn append_tool_line(out: &mut String, t: &ToolDefinition)
    ensures
        final(out)@ == old(out)@ + tool_line(*t),
{
    let ghost start = out@;
    push_str(out, "• `");
    push_str(out, t.name.as_str());
    push_str(out, "` — ");
    push_str(out, t.description.as_str());
    push_str(out, "\n");
    assert(out@ =~= start + tool_line(*t));
}

fn append_server_line(
    out: &mut String,
    s: &McpServer,
    all: &Vec<McpToolInfo>,
    blacklisted: &Vec<McpToolInfo>,
)
    requires
        count_server(blacklisted@, s.name@) <= count_server(all@, s.name@),
    ensures
        final(out)@ == old(out)@ + server_line(*s, all@, blacklisted@),
{
    let ghost start = out@;
    let tool_count = count_server_exec(all, s.name.as_str());
    let blacklisted_count = count_server_exec(blacklisted, s.name.as_str());
    push_str(out, "• `");
    push_str(out, s.name.as_str());
    push_str(out, "` (");
    push_str(out, s.url.as_str());
    push_str(out, ", ");
    push_str(out, s.transport.as_str());
    push_str(out, ")");
    if blacklisted_count > 0 {
        push_str(out, " — ");
        let a = u64_to_decimal((tool_count - blacklisted_count) as u64);
        push_str(out, a.as_str());
        push_str(out, " available, ");
        let b = u64_to_decimal(blacklisted_count as u64);
        push_str(out, b.as_str());
        push_str(out, " blacklisted for this chat");
    } else {
        push_str(out, " — ");
        let a = u64_to_decimal(tool_count as u64);
        push_str(out, a.as_str());
        push_str(out, " tool(s)");
    }
    push_str(out, "\n");
    assert(out@ =~= start + server_line(*s, all@, blacklisted@));
}

fn append_group(
    out: &mut String,
    g: &str,
    tools: &Vec<ToolDefinition>,
    mcp_tools: &Vec<McpToolInfo>,
)
    ensures
        final(out)@ == old(out)@ + "\n*MCP: "@ + g@ + "*\n"@ + group_lines(g@, tools@, mcp_tools@),
{
    let ghost start = out@;
    push_str(out, "\n*MCP: ");
    push_str(out, g);
    push_str(out, "*\n");
    let ghost head = out@;
    let n = tools.len();
    let mut i: usize = 0;
    proof {
        assert(tools@.take(0) =~= Seq::<ToolDefinition>::empty());
        assert(head + Seq::<char>::empty() =~= head);
    }
    while i < n
        invariant
            n == tools@.len(),
            i <= n,
            out@ == head + group_lines(g@, tools@.take(i as int), mcp_tools@),
        decreases n - i,
    {
        assert(tools@.take(i + 1).drop_last() =~= tools@.take(i as int));
        assert(tools@.take(i + 1).last() == tools@[i as int]);
        if is_mcp_tool_exec(&tools[i]) {
            let server = server_of_exec(tools[i].name.as_str(), mcp_tools);
            if str_eq(server.as_str(), g) {
                append_tool_line(out, &tools[i]);
            }
        }
        assert(out@ =~= head + group_lines(g@, tools@.take(i + 1), mcp_tools@));
        i += 1;
    }
    assert(tools@.take(n as int) =~= tools@);
    assert(out@ =~= start + "\n*MCP: "@ + g@ + "*\n"@ + group_lines(g@, tools@, mcp_tools@));
}

/// The `/tools` reply: a header; the MCP servers (when there are any), each
/// with its tool count, or its available and blacklisted counts when some of
/// its tools are blacklisted in this chat; the built-in tools (those whose
/// name does not start with `mcp_`); then the MCP tools grouped by server,
/// the groups in name order.
pub fn format_tools_output(
    builtin_tools: &Vec<ToolDefinition>,
    mcp_tools: &Vec<McpToolInfo>,
    all_mcp_tools: &Vec<McpToolInfo>,
    mcp_blacklisted: &Vec<McpToolInfo>,
    mcp_servers: &Vec<McpServer>,
) -> (r: String)
    requires
        counts_consistent(mcp_servers@, all_mcp_tools@, mcp_blacklisted@),
    ensures
        exists|names: Seq<Seq<char>>|
            {
                &&& sorted_strict(names)
                &&& forall|g: Seq<char>|
                    #[trigger] names.contains(g) <==> is_group_in(
                        g,
                        builtin_tools@,
                        mcp_tools@,
                        builtin_tools@.len() as int,
                    )
                &&& r@ == tools_listing(
                    builtin_tools@,
                    mcp_tools@,
                    all_mcp_tools@,
                    mcp_blacklisted@,
                    mcp_servers@,
                    names,
                )
            },
{
    let mut out = to_owned("🛠 *Available Tools*\n");
    let ghost head = out@;
    if mcp_servers.len() > 0 {
        push_str(&mut out, "\n*MCP Servers:*\n");
        let ghost sec = out@;
        let n = mcp_servers.len();
        let mut i: usize = 0;
        proof {
            assert(mcp_servers@.take(0) =~= Seq::<McpServer>::empty());
            assert(sec + Seq::<char>::empty() =~= sec);
        }
        while i < n
            invariant
                n == mcp_servers@.len(),
                i <= n,
                counts_consistent(mcp_servers@, all_mcp_tools@, mcp_blacklisted@),
                out@ == sec + server_lines(
                    mcp_servers@.take(i as int),
                    all_mcp_tools@,
                    mcp_blacklisted@,
                ),
            decreases n - i,
        {
            assert(mcp_servers@.take(i + 1).drop_last() =~= mcp_servers@.take(i as int));
            assert(mcp_servers@.take(i + 1).last() == mcp_servers@[i as int]);
            append_server_line(&mut out, &mcp_servers[i], all_mcp_tools, mcp_blacklisted);
            assert(out@ =~= sec + server_lines(
                mcp_servers@.take(i + 1),
                all_mcp_tools@,
                mcp_blacklisted@,
            ));
            i += 1;
        }
        assert(mcp_servers@.take(n as int) =~= mcp_servers@);
    }
    assert(out@ =~= head + (if mcp_servers@.len() > 0 {
        "\n*MCP Servers:*\n"@ + server_lines(mcp_servers@, all_mcp_tools@, mcp_blacklisted@)
    } else {
        Seq::empty()
    }));
    push_str(&mut out, "\n*Built-in:*\n");
    let ghost mid = out@;
    let n = builtin_tools.len();
    let mut i: usize = 0;
    proof {
        assert(builtin_tools@.take(0) =~= Seq::<ToolDefinition>::empty());
        assert(mid + Seq::<char>::empty() =~= mid);
    }
    while i < n
        invariant
            n == builtin_tools@.len(),
            i <= n,
            out@ == mid + builtin_lines(builtin_tools@.take(i as int)),
        decreases n - i,
    {
        assert(builtin_tools@.take(i + 1).drop_last() =~= builtin_tools@.take(i as int));
        assert(builtin_tools@.take(i + 1).last() == builtin_tools@[i as int]);
        if !is_mcp_tool_exec(&builtin_tools[i]) {
            append_tool_line(&mut out, &builtin_tools[i]);
        }
        assert(out@ =~= mid + builtin_lines(builtin_tools@.take(i + 1)));
        i += 1;
    }
    assert(builtin_tools@.take(n as int) =~= builtin_tools@);
    // the servers of the MCP tools, sorted
    let mut names: Vec<String> = Vec::new();
    let mut i: usize = 0;
    while i < n
        invariant
            n == builtin_tools@.len(),
            i <= n,
            sorted_strict(strs(names@)),
            forall|g: Seq<char>|
                #[trigger] strs(names@).contains(g) <==> is_group_in(
                    g,
                    builtin_tools@,
                    mcp_tools@,
                    i as int,
                ),
        decreases n - i,
    {
        if is_mcp_tool_exec(&builtin_tools[i]) {
            let server = server_of_exec(builtin_tools[i].name.as_str(), mcp_tools);
            let ghost sv = server@;
            insert_sorted(&mut names, server);
            proof {
                assert forall|g: Seq<char>| #[trigger]
                    strs(names@).contains(g) <==> is_group_in(
                        g,
                        builtin_tools@,
                        mcp_tools@,
                        i + 1,
                    ) by {
                    if g == sv {
                        assert(is_mcp_tool(builtin_tools@[i as int]));
                    }
                    if is_group_in(g, builtin_tools@, mcp_tools@, i + 1) {
                        let j = choose|j: int|
                            0 <= j < i + 1 && is_mcp_tool(#[trigger] builtin_tools@[j])
                                && server_of(builtin_tools@[j].name@, mcp_tools@) == g;
                        if j < i {
                            assert(is_group_in(g, builtin_tools@, mcp_tools@, i as int));
                        }
                    }
                    if is_group_in(g, builtin_tools@, mcp_tools@, i as int) {
                        let j = choose|j: int|
                            0 <= j < i && is_mcp_tool(#[trigger] builtin_tools@[j])
                                && server_of(builtin_tools@[j].name@, mcp_tools@) == g;
                        assert(0 <= j < i + 1);
                    }
                }
            }
        } else {
            proof {
                assert forall|g: Seq<char>| #[trigger]
                    strs(names@).contains(g) <==> is_group_in(
                        g,
                        builtin_tools@,
                        mcp_tools@,
                        i + 1,
                    ) by {
                    if is_group_in(g, builtin_tools@, mcp_tools@, i + 1) {
                        let j = choose|j: int|
                            0 <= j < i + 1 && is_mcp_tool(#[trigger] builtin_tools@[j])
                                && server_of(builtin_tools@[j].name@, mcp_tools@) == g;
                        assert(j != i);
                        assert(is_group_in(g, builtin_tools@, mcp_tools@, i as int));
                    }
                    if is_group_in(g, builtin_tools@, mcp_tools@, i as int) {
                        let j = choose|j: int|
                            0 <= j < i && is_mcp_tool(#[trigger] builtin_tools@[j])
                                && server_of(builtin_tools@[j].name@, mcp_tools@) == g;
                        assert(0 <= j < i + 1);
                    }
                }
            }
        }
        i += 1;
    }
    let ghost tail = out@;
    let ghost all_names = strs(names@);
    let m = names.len();
    let mut k: usize = 0;
    proof {
        assert(all_names.take(0) =~= Seq::<Seq<char>>::empty());
        assert(tail + Seq::<char>::empty() =~= tail);
    }
    while k < m
        invariant
            m == names@.len(),
            all_names == strs(names@),
            k <= m,
            out@ == tail + groups_text(all_names.take(k as int), builtin_tools@, mcp_tools@),
        decreases m - k,
    {
        assert(all_names.take(k + 1).drop_last() =~= all_names.take(k as int));
        assert(all_names.take(k + 1).last() == names@[k as int]@);
        append_group(&mut out, names[k].as_str(), builtin_tools, mcp_tools);
        assert(out@ =~= tail + groups_text(all_names.take(k + 1), builtin_tools@, mcp_tools@));
        k += 1;
    }
    assert(all_names.take(m as int) =~= all_names);
    assert(out@ =~= tools_listing(
        builtin_tools@,
        mcp_tools@,
        all_mcp_tools@,
        mcp_blacklisted@,
        mcp_servers@,
        all_names,
    ));
    out
}


proof fn lemma_occurs_in_middle(a: Seq<char>, s: Seq<char>, b: Seq<char>, p: Seq<char>, i: int)
    requires
        crate::text::occurs_at(s, p, i),
    ensures
        crate::text::occurs_at(a + s + b, p, a.len() + i),
{
    assert((a + s + b).subrange(a.len() + i, a.len() + i + p.len()) =~= s.subrange(i, i + p.len()));
}

proof fn lemma_builtin_line_listed(tools: Seq<ToolDefinition>, j: int)
    requires
        0 <= j < tools.len(),
        !is_mcp_tool(tools[j]),
    ensures
        exists|i: int| crate::text::occurs_at(builtin_lines(tools), tool_line(tools[j]), i),
    decreases tools.len(),
{
    let prev = builtin_lines(tools.drop_last());
    if j == tools.len() - 1 {
        assert(tool_line(tools[j]).subrange(0, tool_line(tools[j]).len() as int) =~= tool_line(tools[j]));
        lemma_occurs_in_middle(prev, tool_line(tools[j]), Seq::empty(), tool_line(tools[j]), 0);
        assert(builtin_lines(tools) =~= prev + tool_line(tools[j]) + Seq::<char>::empty());
    } else {
        lemma_builtin_line_listed(tools.drop_last(), j);
        assert(tools.drop_last()[j] == tools[j]);
        let i = choose|i: int| crate::text::occurs_at(prev, tool_line(tools[j]), i);
        let last = if !is_mcp_tool(tools.last()) {
            tool_line(tools.last())
        } else {
            Seq::empty()
        };
        lemma_occurs_in_middle(Seq::empty(), prev, last, tool_line(tools[j]), i);
        assert(builtin_lines(tools) =~= Seq::<char>::empty() + prev + last);
    }
}

/// The `/tools` listing starts with its header, lists the MCP servers first
/// when there are any, and has the line of every built-in tool.
pub proof fn lemma_tools_listing(
    tools: Seq<ToolDefinition>,
    mcp_tools: Seq<McpToolInfo>,
    all: Seq<McpToolInfo>,
    blacklisted: Seq<McpToolInfo>,
    servers: Seq<McpServer>,
    names: Seq<Seq<char>>,
)
    ensures
        has_prefix(
            tools_listing(tools, mcp_tools, all, blacklisted, servers, names),
            "🛠 *Available Tools*\n"@,
        ),
        servers.len() > 0 ==> has_prefix(
            tools_listing(tools, mcp_tools, all, blacklisted, servers, names),
            "🛠 *Available Tools*\n"@ + "\n*MCP Servers:*\n"@,
        ),
        forall|j: int|
            0 <= j < tools.len() && !is_mcp_tool(#[trigger] tools[j]) ==> exists|i: int|
                crate::text::occurs_at(
                    tools_listing(tools, mcp_tools, all, blacklisted, servers, names),
                    tool_line(tools[j]),
                    i,
                ),
{
    let listing = tools_listing(tools, mcp_tools, all, blacklisted, servers, names);
    let head = "🛠 *Available Tools*\n"@;
    let sec = if servers.len() > 0 {
        "\n*MCP Servers:*\n"@ + server_lines(servers, all, blacklisted)
    } else {
        Seq::empty()
    };
    let a = head + sec + "\n*Built-in:*\n"@;
    let b = groups_text(names, tools, mcp_tools);
    assert(listing =~= a + builtin_lines(tools) + b);
    assert(listing.subrange(0, head.len() as int) =~= head);
    if servers.len() > 0 {
        let h2 = head + "\n*MCP Servers:*\n"@;
        assert(listing.subrange(0, h2.len() as int) =~= h2);
    }
    assert forall|j: int| 0 <= j < tools.len() && !is_mcp_tool(#[trigger] tools[j]) implies exists|
        i: int,
    | crate::text::occurs_at(listing, tool_line(tools[j]), i) by {
        lemma_builtin_line_listed(tools, j);
        let i = choose|i: int| crate::text::occurs_at(builtin_lines(tools), tool_line(tools[j]), i);
        lemma_occurs_in_middle(a, builtin_lines(tools), b, tool_line(tools[j]), i);
    }
}

proof fn lemma_count_filtered(all: Seq<McpToolInfo>, keep: spec_fn(McpToolInfo) -> bool, name: Seq<char>)
    ensures
        count_server(all.filter(keep), name) <= count_server(all, name),
    decreases all.len(),
{
    reveal(Seq::filter);
    if all.len() > 0 {
        lemma_count_filtered(all.drop_last(), keep, name);
        let sub = all.drop_last().filter(keep);
        if keep(all.last()) {
            assert(all.filter(keep) == sub.push(all.last()));
            assert(sub.push(all.last()).drop_last() =~= sub);
        } else {
            assert(all.filter(keep) == sub);
        }
    }
}

/// Blacklisted tools picked out of the MCP tools (as the `/tools` command
/// picks those of blacklisted servers) never outnumber a server's tools, so
/// the listing can always be made from them.
pub proof fn lemma_filtered_counts_consistent(
    servers: Seq<McpServer>,
    all: Seq<McpToolInfo>,
    keep: spec_fn(McpToolInfo) -> bool,
)
    ensures
        counts_consistent(servers, all, all.filter(keep)),
{
    assert forall|i: int| 0 <= i < servers.len() implies count_server(
        all.filter(keep),
        #[trigger] servers[i].name@,
    ) <= count_server(all, servers[i].name@) by {
        lemma_count_filtered(all, keep, servers[i].name@);
    }
}

/// Tools are counted per server: the count over `a + b` is the counts over
/// `a` and `b` added, and a single tool counts once for its own server and
/// not for any other.
pub proof fn lemma_count_server_adds(a: Seq<McpToolInfo>, b: Seq<McpToolInfo>, t: McpToolInfo, name: Seq<char>)
    ensures
        count_server(a + b, name) == count_server(a, name) + count_server(b, name),
        count_server(seq![t], name) == if t.server_name@ == name {
            1nat
        } else {
            0nat
        },
    decreases b.len(),
{
    assert(seq![t].drop_last() =~= Seq::<McpToolInfo>::empty());
    assert(seq![t].last() == t);
    assert(count_server(Seq::<McpToolInfo>::empty(), name) == 0);
    assert(count_server(seq![t], name) == count_server(seq![t].drop_last(), name) + if t.server_name@ == name {
        1nat
    } else {
        0nat
    });
    if b.len() == 0 {
        assert(a + b =~= a);
    } else {
        lemma_count_server_adds(a, b.drop_last(), t, name);
        assert((a + b).drop_last() =~= a + b.drop_last());
        assert((a + b).last() == b.last());
    }
}

/// A server's line in `/tools` ends with its tool count, or, when some of its
/// tools are blacklisted in the chat, with how many are available and how
/// many are blacklisted.
pub proof fn lemma_server_line_counts(s: McpServer, all: Seq<McpToolInfo>, blacklisted: Seq<McpToolInfo>)
    ensures
        ({
            let line = server_line(s, all, blacklisted);
            let n = count_server(all, s.name@);
            let b = count_server(blacklisted, s.name@);
            &&& b == 0 ==> has_suffix(line, " — "@ + decimal(n) + " tool(s)\n"@)
            &&& b > 0 ==> has_suffix(
                line,
                " — "@ + decimal((n - b) as nat) + " available, "@ + decimal(b)
                    + " blacklisted for this chat\n"@,
            )
        }),
{
    reveal_strlit(" tool(s)\n");
    reveal_strlit(" tool(s)");
    reveal_strlit(" blacklisted for this chat\n");
    reveal_strlit(" blacklisted for this chat");
    reveal_strlit("\n");
    let line = server_line(s, all, blacklisted);
    let n = count_server(all, s.name@);
    let b = count_server(blacklisted, s.name@);
    let head = "• `"@ + s.name@ + "` ("@ + s.url@ + ", "@ + s.transport@ + ")"@;
    if b == 0 {
        let tail = " — "@ + decimal(n) + " tool(s)\n"@;
        assert(" tool(s)\n"@ =~= " tool(s)"@ + "\n"@);
        assert(line =~= head + tail);
        assert(line.subrange(line.len() - tail.len(), line.len() as int) =~= tail);
    } else {
        let tail = " — "@ + decimal((n - b) as nat) + " available, "@ + decimal(b)
            + " blacklisted for this chat\n"@;
        assert(" blacklisted for this chat\n"@ =~= " blacklisted for this chat"@ + "\n"@);
        assert(line =~= head + tail);
        assert(line.subrange(line.len() - tail.len(), line.len() as int) =~= tail);
    }
}
} // verus!
