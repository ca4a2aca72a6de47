//! Reading the final response of the Codex (Responses) API: the reply text,
//! the reasoning summary, the tool calls, the items to hand back on the next
//! request, and the token counts.

use vstd::prelude::*;
use crate::config::{copy_opt_string, ostr};
use crate::messages::{calls_view, FunctionCall, ToolCall, ToolCallView};
use crate::codex::{sse_data, spec_sse_data};
use crate::codex_auth::{json_accepts, json_parses, json_str_at, str_at};
use crate::text::{join, join_seq, push_str, str_eq, to_owned, truncate, truncate_chars};
use vstd::utf8::encode_utf8;

verus! {

/// A part of the content of an output message: its `type` and its `text`
/// (each `None` when missing or not a string).
pub struct OutputPart {
    pub kind: Option<String>,
    pub text: Option<String>,
}

/// An item of the response's `output` array, as far as it is read.
pub struct OutputItem {
    /// Its `type`.
    pub kind: Option<String>,
    /// The parts of its `content` (empty when that is not an array).
    pub content: Vec<OutputPart>,
    /// The `text` of each part of its `summary` (empty when that is not an
    /// array).
    pub summary: Vec<Option<String>>,
    /// Its `call_id`: `None` when missing, `Some(None)` when not a string.
    pub call_id: Option<Option<String>>,
    /// Its `id`.
    pub id: Option<String>,
    pub name: Option<String>,
    pub arguments: Option<String>,
    /// The item itself, as JSON text.
    pub raw: String,
}

/// The token counts of the response's `usage` (each `None` when missing or
/// not an unsigned integer).
pub struct UsageCounts {
    pub input_tokens: Option<u64>,
    pub output_tokens: Option<u64>,
    pub total_tokens: Option<u64>,
}

/// What the response says.
pub struct CodexReply {
    pub text: String,
    pub tool_calls: Option<Vec<ToolCall>>,
    pub reasoning: Option<String>,
    /// The reasoning and function-call items, as JSON text.
    pub provider_items: Option<Vec<String>>,
    pub finish_reason: String,
    pub prompt_tokens: u64,
    pub completion_tokens: u64,
    pub total_tokens: u64,
}

/// Whether the `type` read is `name`.
pub open spec fn is_kind(k: Option<String>, name: Seq<char>) -> bool {
    ostr(k) == Some(name)
}

/// The text that a content part adds: that of an `output_text` part.
pub open spec fn part_text(p: OutputPart) -> Seq<char> {
    if is_kind(p.kind, "output_text"@) && p.text is Some {
        p.text->0@
    } else {
        Seq::empty()
    }
}

/// The output text of the parts, in order.
pub open spec fn parts_text(parts: Seq<OutputPart>) -> Seq<char>
    decreases parts.len(),
{
    if parts.len() == 0 {
        Seq::empty()
    } else {
        parts_text(parts.drop_last()) + part_text(parts.last())
    }
}

/// The reply text: the output text of every message item, in order.
pub open spec fn items_text(items: Seq<OutputItem>) -> Seq<char>
    decreases items.len(),
{
    if items.len() == 0 {
        Seq::empty()
    } else {
        items_text(items.drop_last()) + if is_kind(items.last().kind, "message"@) {
            parts_text(items.last().content@)
        } else {
            Seq::empty()
        }
    }
}

/// The texts of a reasoning summary, in order.
pub open spec fn summary_lines(summary: Seq<Option<String>>) -> Seq<Seq<char>>
    decreases summary.len(),
{
    if summary.len() == 0 {
        Seq::empty()
    } else {
        summary_lines(summary.drop_last()) + match summary.last() {
            Some(t) => seq![t@],
            None => Seq::empty(),
        }
    }
}

/// The reasoning lines: the summary texts of every reasoning item, in order.
pub open spec fn items_reasoning(items: Seq<OutputItem>) -> Seq<Seq<char>>
    decreases items.len(),
{
    if items.len() == 0 {
        Seq::empty()
    } else {
        items_reasoning(items.drop_last()) + if is_kind(items.last().kind, "reasoning"@) {
            summary_lines(items.last().summary@)
        } else {
            Seq::empty()
        }
    }
}

/// The ID of a function call: its `call_id`, or its `id` when it has none.
pub open spec fn call_id_of(it: OutputItem) -> Option<Seq<char>> {
    match it.call_id {
        Some(c) => ostr(c),
        None => ostr(it.id),
    }
}

/// The tool call of a function-call item, or why it cannot be read.
pub open spec fn item_call(it: OutputItem) -> Option<Result<ToolCallView, Seq<char>>> {
    if !is_kind(it.kind, "function_call"@) {
        None
    } else if call_id_of(it) is None {
        Some(Err("Codex function call has no call_id"@))
    } else if it.name is None {
        Some(Err("Codex function call has no name"@))
    } else {
        Some(
            Ok(
                ToolCallView {
                    id: call_id_of(it)->0,
                    call_type: "function"@,
                    name: it.name->0@,
                    arguments: match it.arguments {
                        Some(a) => a@,
                        None => "{}"@,
                    },
                },
            ),
        )
    }
}

/// The tool calls of the items in order, or the error of the first
/// function call that cannot be read.
pub open spec fn items_calls(items: Seq<OutputItem>) -> Result<Seq<ToolCallView>, Seq<char>>
    decreases items.len(),
{
    if items.len() == 0 {
        Ok(Seq::empty())
    } else {
        match items_calls(items.drop_last()) {
            Err(e) => Err(e),
            Ok(cs) => match item_call(items.last()) {
                None => Ok(cs),
                Some(Ok(c)) => Ok(cs.push(c)),
                Some(Err(e)) => Err(e),
            },
        }
    }
}

/// The function-call items, in order.
pub open spec fn function_call_items(items: Seq<OutputItem>) -> Seq<OutputItem>
    decreases items.len(),
{
    if items.len() == 0 {
        Seq::empty()
    } else {
        function_call_items(items.drop_last()) + if is_kind(items.last().kind, "function_call"@) {
            seq![items.last()]
        } else {
            Seq::empty()
        }
    }
}

/// When every function call can be read, there is one tool call per
/// function-call item, in the same order: the `k`-th tool call is read from
/// the `k`-th function-call item. Otherwise some function-call item cannot
/// be read.
pub proof fn lemma_one_call_per_function_item(items: Seq<OutputItem>)
    ensures
        items_calls(items) matches Ok(cs) ==> {
            &&& cs.len() == function_call_items(items).len()
            &&& forall|k: int|
                0 <= k < cs.len() ==> item_call(#[trigger] function_call_items(items)[k]) == Some(
                    Ok::<ToolCallView, Seq<char>>(cs[k]),
                )
        },
        items_calls(items) is Err ==> exists|j: int|
            0 <= j < items.len() && #[trigger] item_call(items[j]) matches Some(Err(_)),
    decreases items.len(),
{
    if items.len() > 0 {
        let prev = items.drop_last();
        lemma_one_call_per_function_item(prev);
        let f = function_call_items(prev);
        let it = items.last();
        match items_calls(prev) {
            Err(_) => {
                let j = choose|j: int| 0 <= j < prev.len() && #[trigger] item_call(prev[j]) matches Some(
                    Err(_),
                );
                assert(items[j] == prev[j]);
            },
            Ok(cs) => {
                if is_kind(it.kind, "function_call"@) {
                    match item_call(it) {
                        Some(Ok(c)) => {
                            let f2 = function_call_items(items);
                            assert(f2 == f.push(it));
                            assert forall|k: int| 0 <= k < cs.len() + 1 implies item_call(
                                #[trigger] f2[k],
                            ) == Some(Ok::<ToolCallView, Seq<char>>(cs.push(c)[k])) by {
                                if k < cs.len() {
                                    assert(f2[k] == f[k]);
                                }
                            }
                        },
                        _ => {
                            assert(item_call(items[items.len() - 1]) matches Some(Err(_)));
                        },
                    }
                } else {
                    assert(item_call(it) is None);
                    assert(function_call_items(items) =~= f);
                }
            },
        }
    }
}

/// The reasoning and function-call items, in order, as JSON text.
pub open spec fn items_provider(items: Seq<OutputItem>) -> Seq<Seq<char>>
    decreases items.len(),
{
    if items.len() == 0 {
        Seq::empty()
    } else {
        items_provider(items.drop_last()) + if is_kind(items.last().kind, "reasoning"@) || is_kind(
            items.last().kind,
            "function_call"@,
        ) {
            seq![items.last().raw@]
        } else {
            Seq::empty()
        }
    }
}

/// Reading a response is reading its items in order: the text, reasoning
/// lines and provider items of `a + b` are those of `a` followed by those
/// of `b`; a single message item gives its output text, a single reasoning
/// item its summary texts, and each reasoning or function-call item is
/// handed back as it is.
pub proof fn lemma_reply_reads_items_in_order(a: Seq<OutputItem>, b: Seq<OutputItem>, it: OutputItem)
    ensures
        items_text(a + b) == items_text(a) + items_text(b),
        items_reasoning(a + b) == items_reasoning(a) + items_reasoning(b),
        items_provider(a + b) == items_provider(a) + items_provider(b),
        is_kind(it.kind, "message"@) ==> items_text(seq![it]) == parts_text(it.content@),
        !is_kind(it.kind, "message"@) ==> items_text(seq![it]) == Seq::<char>::empty(),
        is_kind(it.kind, "reasoning"@) ==> items_reasoning(seq![it]) == summary_lines(it.summary@),
        (is_kind(it.kind, "reasoning"@) || is_kind(it.kind, "function_call"@)) ==> items_provider(
            seq![it],
        ) == seq![it.raw@],
    decreases b.len(),
{
    assert(seq![it].drop_last() =~= Seq::<OutputItem>::empty());
    assert(seq![it].last() == it);
    assert(Seq::<char>::empty() + parts_text(it.content@) =~= parts_text(it.content@));
    assert(Seq::<Seq<char>>::empty() + summary_lines(it.summary@) =~= summary_lines(it.summary@));
    assert(Seq::<Seq<char>>::empty() + seq![it.raw@] =~= seq![it.raw@]);
    assert(Seq::<char>::empty() + Seq::<char>::empty() =~= Seq::<char>::empty());
    assert(items_text(Seq::<OutputItem>::empty()) == Seq::<char>::empty());
    assert(items_text(seq![it]) == items_text(seq![it].drop_last()) + if is_kind(it.kind, "message"@) {
        parts_text(it.content@)
    } else {
        Seq::<char>::empty()
    });
    assert(items_reasoning(Seq::<OutputItem>::empty()) == Seq::<Seq<char>>::empty());
    assert(items_reasoning(seq![it]) == items_reasoning(seq![it].drop_last()) + if is_kind(it.kind, "reasoning"@) {
        summary_lines(it.summary@)
    } else {
        Seq::<Seq<char>>::empty()
    });
    assert(items_provider(Seq::<OutputItem>::empty()) == Seq::<Seq<char>>::empty());
    assert(items_provider(seq![it]) == items_provider(seq![it].drop_last()) + if is_kind(it.kind, "reasoning"@)
        || is_kind(it.kind, "function_call"@) {
        seq![it.raw@]
    } else {
        Seq::<Seq<char>>::empty()
    });
    if b.len() == 0 {
        assert(a + b =~= a);
        assert(items_text(a) + Seq::<char>::empty() =~= items_text(a));
        assert(items_reasoning(a) + Seq::<Seq<char>>::empty() =~= items_reasoning(a));
        assert(items_provider(a) + Seq::<Seq<char>>::empty() =~= items_provider(a));
    } else {
        lemma_reply_reads_items_in_order(a, b.drop_last(), it);
        assert((a + b).drop_last() =~= a + b.drop_last());
        assert((a + b).last() == b.last());
        assert(items_text(a + b) =~= items_text(a) + items_text(b));
        assert(items_reasoning(a + b) =~= items_reasoning(a) + items_reasoning(b));
        assert(items_provider(a + b) =~= items_provider(a) + items_provider(b));
    }
}

/// `r` is the reading of the response with `items` and `usage`: the error
/// of the first unreadable function call, else the text, the tool calls
/// (when there are any), the reasoning lines joined by newlines (when there
/// are any), the provider items (when there are any), `tool_calls` or `stop`
/// as the finish reason, and the token counts (0 when missing; the total
/// defaults to the sum).
pub open spec fn reply_matches(r: Result<CodexReply, String>, items: Seq<OutputItem>, usage: UsageCounts) -> bool {
    match items_calls(items) {
        Err(e) => r matches Err(m) && m@ == e,
        Ok(cs) => {
            let lines = items_reasoning(items);
            let provider = items_provider(items);
            let prompt = match usage.input_tokens {
                Some(n) => n,
                None => 0,
            };
            let completion = match usage.output_tokens {
                Some(n) => n,
                None => 0,
            };
            &&& r is Ok
            &&& r->Ok_0.text@ == items_text(items)
            &&& calls_view(r->Ok_0.tool_calls) == if cs.len() > 0 {
                Some(cs)
            } else {
                None
            }
            &&& ostr(r->Ok_0.reasoning) == if lines.len() > 0 {
                Some(join_seq(lines, "\n"@))
            } else {
                None
            }
            &&& match r->Ok_0.provider_items {
                Some(p) => provider.len() > 0 && p@.map_values(|s: String| s@) == provider,
                None => provider.len() == 0,
            }
            &&& r->Ok_0.finish_reason@ == if cs.len() > 0 {
                "tool_calls"@
            } else {
                "stop"@
            }
            &&& r->Ok_0.prompt_tokens == prompt
            &&& r->Ok_0.completion_tokens == completion
            &&& r->Ok_0.total_tokens == match usage.total_tokens {
                Some(n) => n as int,
                None => prompt + completion,
            }
        },
    }
}

fn kind_is(k: &Option<String>, name: &str) -> (r: bool)
    ensures
        r == is_kind(*k, name@),
{
    match k {
        Some(s) => str_eq(s.as_str(), name),
        None => false,
    }
}

fn append_parts_text(out: &mut String, parts: &Vec<OutputPart>)
    ensures
        final(out)@ == old(out)@ + parts_text(parts@),
{
    let ghost start = out@;
    let n = parts.len();
    let mut i: usize = 0;
    proof {
        assert(parts@.take(0) =~= Seq::<OutputPart>::empty());
        assert(start + Seq::<char>::empty() =~= start);
    }
    while i < n
        invariant
            n == parts@.len(),
            i <= n,
            out@ == start + parts_text(parts@.take(i as int)),
        decreases n - i,
    {
        assert(parts@.take(i + 1).drop_last() =~= parts@.take(i as int));
        assert(parts@.take(i + 1).last() == parts@[i as int]);
        if kind_is(&parts[i].kind, "output_text") {
            if let Some(t) = &parts[i].text {
                push_str(out, t.as_str());
            }
        }
        assert(out@ =~= start + parts_text(parts@.take(i + 1)));
        i += 1;
    }
    assert(parts@.take(n as int) =~= parts@);
}

fn push_summary_lines(lines: &mut Vec<String>, summary: &Vec<Option<String>>)
    ensures
        final(lines)@.map_values(|s: String| s@) == old(lines)@.map_values(|s: String| s@)
            + summary_lines(summary@),
{
    let ghost start = lines@.map_values(|s: String| s@);
    let n = summary.len();
    let mut i: usize = 0;
    proof {
        assert(summary@.take(0) =~= Seq::<Option<String>>::empty());
        assert(start + Seq::<Seq<char>>::empty() =~= start);
    }
    while i < n
        invariant
            n == summary@.len(),
            i <= n,
            lines@.map_values(|s: String| s@) == start + summary_lines(summary@.take(i as int)),
        decreases n - i,
    {
        assert(summary@.take(i + 1).drop_last() =~= summary@.take(i as int));
        assert(summary@.take(i + 1).last() == summary@[i as int]);
        let ghost before = lines@.map_values(|s: String| s@);
        if let Some(t) = &summary[i] {
            lines.push(to_owned(t.as_str()));
            assert(lines@.map_values(|s: String| s@) =~= before.push(t@));
        }
        assert(lines@.map_values(|s: String| s@) =~= start + summary_lines(summary@.take(i + 1)));
        i += 1;
    }
    assert(summary@.take(n as int) =~= summary@);
}

/// Read the final response with output `items` and `usage`.
pub fn codex_reply(items: &Vec<OutputItem>, usage: &UsageCounts) -> (r: Result<CodexReply, String>)
    requires
        match (usage.input_tokens, usage.output_tokens) {
            (Some(a), Some(b)) => a + b <= u64::MAX,
            _ => true,
        },
    ensures
        reply_matches(r, items@, *usage),
{
    let n = items.len();
    let mut text = String::new();
    let mut lines: Vec<String> = Vec::new();
    let mut calls: Vec<ToolCall> = Vec::new();
    let mut provider: Vec<String> = Vec::new();
    let mut i: usize = 0;
    proof {
        assert(items@.take(0) =~= Seq::<OutputItem>::empty());
        assert(text@ =~= Seq::<char>::empty());
        assert(lines@.map_values(|s: String| s@) =~= Seq::<Seq<char>>::empty());
        assert(calls@.map_values(|t: ToolCall| t@) =~= Seq::<ToolCallView>::empty());
        assert(provider@.map_values(|s: String| s@) =~= Seq::<Seq<char>>::empty());
    }
    while i < n
        invariant
            n == items@.len(),
            i <= n,
            text@ == items_text(items@.take(i as int)),
            lines@.map_values(|s: String| s@) == items_reasoning(items@.take(i as int)),
            items_calls(items@.take(i as int)) == Ok::<Seq<ToolCallView>, Seq<char>>(
                calls@.map_values(|t: ToolCall| t@),
            ),
            provider@.map_values(|s: String| s@) == items_provider(items@.take(i as int)),
        decreases n - i,
    {
        let ghost pre = items@.take(i as int);
        assert(items@.take(i + 1).drop_last() =~= pre);
        assert(items@.take(i + 1).last() == items@[i as int]);
        let it = &items[i];
        proof {
            reveal_strlit("reasoning");
            reveal_strlit("function_call");
            reveal_strlit("message");
            assert("reasoning"@.len() == 9 && "function_call"@.len() == 13 && "message"@.len() == 7);
            assert("reasoning"@ != "function_call"@);
            assert("message"@ != "function_call"@);
            assert("message"@ != "reasoning"@);
        }
        if kind_is(&it.kind, "message") {
            append_parts_text(&mut text, &it.content);
        } else {
            proof {
                assert(text@ =~= text@ + Seq::<char>::empty());
            }
        }
        if kind_is(&it.kind, "reasoning") {
            push_summary_lines(&mut lines, &it.summary);
            let ghost before = provider@.map_values(|s: String| s@);
            provider.push(to_owned(it.raw.as_str()));
            assert(provider@.map_values(|s: String| s@) =~= before + seq![it.raw@]);
        } else if kind_is(&it.kind, "function_call") {
            let id = match &it.call_id {
                Some(c) => copy_opt_string(c),
                None => copy_opt_string(&it.id),
            };
            let id = match id {
                Some(x) => x,
                None => {
                    assert(items_calls(items@.take(i + 1)) == Err::<Seq<ToolCallView>, Seq<char>>(
                        "Codex function call has no call_id"@,
                    ));
                    proof {
                        lemma_calls_err_stays(items@, i as int + 1);
                    }
                    return Err(to_owned("Codex function call has no call_id"));
                },
            };
            let name = match &it.name {
                Some(x) => to_owned(x.as_str()),
                None => {
                    proof {
                        lemma_calls_err_stays(items@, i as int + 1);
                    }
                    return Err(to_owned("Codex function call has no name"));
                },
            };
            let arguments = match &it.arguments {
                Some(a) => to_owned(a.as_str()),
                None => to_owned("{}"),
            };
            let ghost before_calls = calls@.map_values(|t: ToolCall| t@);
            calls.push(
                ToolCall {
                    id,
                    call_type: to_owned("function"),
                    function: FunctionCall { name, arguments },
                },
            );
            assert(calls@.map_values(|t: ToolCall| t@) =~= before_calls.push(
                item_call(items@[i as int])->0->Ok_0,
            ));
            let ghost before = provider@.map_values(|s: String| s@);
            provider.push(to_owned(it.raw.as_str()));
            assert(provider@.map_values(|s: String| s@) =~= before + seq![it.raw@]);
        } else {
            proof {
                assert(lines@.map_values(|s: String| s@) =~= lines@.map_values(|s: String| s@)
                    + Seq::<Seq<char>>::empty());
                assert(provider@.map_values(|s: String| s@) =~= provider@.map_values(
                    |s: String| s@,
                ) + Seq::<Seq<char>>::empty());
            }
        }
        proof {
            if !is_kind(it.kind, "reasoning"@) {
                assert(lines@.map_values(|s: String| s@) =~= items_reasoning(items@.take(i + 1)));
            }
        }
        i += 1;
    }
    proof {
        assert(items@.take(n as int) =~= items@);
    }
    let prompt = match usage.input_tokens {
        Some(x) => x,
        None => 0,
    };
    let completion = match usage.output_tokens {
        Some(x) => x,
        None => 0,
    };
    let total = match usage.total_tokens {
        Some(x) => x,
        None => prompt + completion,
    };
    let has_tools = calls.len() > 0;
    let reasoning = if lines.len() > 0 {
        Some(join(&lines, "\n"))
    } else {
        None
    };
    let provider_items = if provider.len() > 0 {
        Some(provider)
    } else {
        None
    };
    let finish_reason = if has_tools {
        to_owned("tool_calls")
    } else {
        to_owned("stop")
    };
    Ok(
        CodexReply {
            text,
            tool_calls: if has_tools {
                Some(calls)
            } else {
                None
            },
            reasoning,
            provider_items,
            finish_reason,
            prompt_tokens: prompt,
            completion_tokens: completion,
            total_tokens: total,
        },
    )
}

/// Once a function call cannot be read, no later item changes the error.
proof fn lemma_calls_err_stays(items: Seq<OutputItem>, k: int)
    requires
        0 <= k <= items.len(),
        items_calls(items.take(k)) is Err,
    ensures
        items_calls(items) == items_calls(items.take(k)),
    decreases items.len() - k,
{
    if k < items.len() {
        assert(items.take(k + 1).drop_last() =~= items.take(k));
        lemma_calls_err_stays(items, k + 1);
    } else {
        assert(items.take(k) =~= items);
    }
}


/// The JSON text that `serde_json` writes for the value that the JSON text
/// `json` holds under the member names `path` (`None` when the text is not
/// JSON or a member is missing).
pub uninterp spec fn json_text_at(json: Seq<u8>, path: Seq<Seq<char>>) -> Option<Seq<char>>;

/// The JSON text of the value under `path` in `json`.
///
/// Calls `serde_json::from_slice`, `serde_json::Value::get` for each name and
/// `serde_json::Value::to_string` on what it reaches; the contract names the
/// result, which depends on the arguments alone.
#[verifier::external_body]
fn text_at(json: &[u8], path: &Vec<String>) -> (r: Option<String>)
    ensures
        ostr(r) == json_text_at(json@, path@.map_values(|p: String| p@)),
{
    let root: serde_json::Value = serde_json::from_slice(json).ok()?;
    let mut value = &root;
    for key in path {
        value = value.get(key.as_str())?;
    }
    Some(value.to_string())
}

/// Where reading the event stream stands: the last completed response and
/// the last error event, each as JSON text.
pub struct StreamState {
    pub completed: Option<Seq<char>>,
    pub failed: Option<Seq<char>>,
}

/// The state after the event with data `d`, or the error for data that is
/// not JSON.
pub open spec fn stream_step(st: StreamState, d: Seq<char>) -> Result<StreamState, Seq<char>> {
    let b = encode_utf8(d);
    let kind = json_str_at(b, seq!["type"@]);
    if d == "[DONE]"@ {
        Ok(st)
    } else if !json_accepts(b) {
        Err("Invalid JSON in Codex event: "@ + truncate_chars(d, 300))
    } else if kind == Some("response.completed"@) || kind == Some("response.incomplete"@) {
        Ok(StreamState { completed: json_text_at(b, seq!["response"@]), ..st })
    } else if kind == Some("response.failed"@) || kind == Some("error"@) {
        Ok(
            StreamState {
                failed: Some(
                    match json_text_at(b, Seq::empty()) {
                        Some(t) => t,
                        None => Seq::empty(),
                    },
                ),
                ..st
            },
        )
    } else {
        Ok(st)
    }
}

/// The state after the events with data `events`, in order.
pub open spec fn stream_state(events: Seq<Seq<char>>) -> Result<StreamState, Seq<char>>
    decreases events.len(),
{
    if events.len() == 0 {
        Ok(StreamState { completed: None, failed: None })
    } else {
        match stream_state(events.drop_last()) {
            Err(e) => Err(e),
            Ok(st) => stream_step(st, events.last()),
        }
    }
}

/// The completed response of the event stream `body`, as JSON text: the
/// error for the first event that is not JSON; else the last error event
/// when there is one; else the response of the last completed (or
/// incomplete) event, which must have one.
pub open spec fn spec_completed_response(body: Seq<char>) -> Result<Seq<char>, Seq<char>> {
    match stream_state(spec_sse_data(body)) {
        Err(e) => Err(e),
        Ok(st) => match st.failed {
            Some(ev) => Err("Codex response failed: "@ + truncate_chars(ev, 1000)),
            None => match st.completed {
                Some(c) => Ok(c),
                None => Err("Codex stream ended without a completed response"@),
            },
        },
    }
}

fn one_key(k: &str) -> (r: Vec<String>)
    ensures
        r@.map_values(|p: String| p@) == seq![k@],
{
    let mut v: Vec<String> = Vec::new();
    v.push(to_owned(k));
    assert(v@.map_values(|p: String| p@) =~= seq![k@]);
    v
}

proof fn lemma_state_err_stays(events: Seq<Seq<char>>, k: int)
    requires
        0 <= k <= events.len(),
        stream_state(events.take(k)) is Err,
    ensures
        stream_state(events) == stream_state(events.take(k)),
    decreases events.len() - k,
{
    if k < events.len() {
        assert(events.take(k + 1).drop_last() =~= events.take(k));
        lemma_state_err_stays(events, k + 1);
    } else {
        assert(events.take(k) =~= events);
    }
}

/// The completed response of the event stream `body`, as JSON text.
pub fn completed_response(body: &str) -> (r: Result<String, String>)
    ensures
        match r {
            Ok(s) => spec_completed_response(body@) == Ok::<Seq<char>, Seq<char>>(s@),
            Err(e) => spec_completed_response(body@) == Err::<Seq<char>, Seq<char>>(e@),
        },
{
    let events = sse_data(body);
    let ghost ev = events@.map_values(|s: String| s@);
    let n = events.len();
    let mut completed: Option<String> = None;
    let mut failed: Option<String> = None;
    let mut i: usize = 0;
    proof {
        assert(ev.take(0) =~= Seq::<Seq<char>>::empty());
    }
    while i < n
        invariant
            n == events@.len(),
            ev == events@.map_values(|s: String| s@),
            ev == spec_sse_data(body@),
            i <= n,
            stream_state(ev.take(i as int)) == Ok::<StreamState, Seq<char>>(
                StreamState { completed: ostr(completed), failed: ostr(failed) },
            ),
        decreases n - i,
    {
        assert(ev.take(i + 1).drop_last() =~= ev.take(i as int));
        assert(ev.take(i + 1).last() == events@[i as int]@);
        let d = events[i].as_str();
        let b = d.as_bytes();
        proof {
            reveal_strlit("[DONE]");
            reveal_strlit("type");
            reveal_strlit("response");
        }
        if str_eq(d, "[DONE]") {
        } else if !json_parses(b) {
            let mut e = to_owned("Invalid JSON in Codex event: ");
            let t = truncate(d, 300);
            push_str(&mut e, t.as_str());
            proof {
                lemma_state_err_stays(ev, i + 1);
            }
            return Err(e);
        } else {
            let kind = str_at(b, &one_key("type"));
            let is_completed = match &kind {
                Some(k) => str_eq(k.as_str(), "response.completed") || str_eq(
                    k.as_str(),
                    "response.incomplete",
                ),
                None => false,
            };
            let is_failed = match &kind {
                Some(k) => str_eq(k.as_str(), "response.failed") || str_eq(k.as_str(), "error"),
                None => false,
            };
            if is_completed {
                completed = text_at(b, &one_key("response"));
            } else if is_failed {
                let empty: Vec<String> = Vec::new();
                proof {
                    assert(empty@.map_values(|p: String| p@) =~= Seq::<Seq<char>>::empty());
                }
                failed = match text_at(b, &empty) {
                    Some(t) => Some(t),
                    None => Some(String::new()),
                };
            }
        }
        i += 1;
    }
    proof {
        assert(ev.take(n as int) =~= ev);
    }
    if let Some(f) = &failed {
        let mut e = to_owned("Codex response failed: ");
        let t = truncate(f.as_str(), 1000);
        push_str(&mut e, t.as_str());
        return Err(e);
    }
    match completed {
        Some(c) => Ok(c),
        None => Err(to_owned("Codex stream ended without a completed response")),
    }
}
} // verus!
