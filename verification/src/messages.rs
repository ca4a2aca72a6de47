//! Chat messages, and how they are trimmed before being stored or handed
//! back to the model.

use vstd::prelude::*;
use vstd::utf8::encode_utf8;
use crate::config::{copy_opt_string, ostr, DatabaseConfig};
use crate::text::{
    decimal, join, join_seq, push_str, str_eq, to_owned, trim, trim_seq, truncate, truncate_chars,
    u64_to_decimal,
};

verus! {

/// The function a tool call invokes.
pub struct FunctionCall {
    pub name: String,
    pub arguments: String,
}

/// A tool call made by the assistant.
pub struct ToolCall {
    pub id: String,
    pub call_type: String,
    pub function: FunctionCall,
}

/// A part of a multimodal message.
pub enum ContentPart {
    Text { text: String },
    ImageUrl { url: String, detail: Option<String> },
    InputAudio { data: String, format: String },
}

/// The content of a message.
pub enum ChatContent {
    Text(String),
    Parts(Vec<ContentPart>),
}

/// A message of a conversation.
pub struct ChatMessage {
    pub role: String,
    pub content: ChatContent,
    pub name: Option<String>,
    pub tool_calls: Option<Vec<ToolCall>>,
    pub tool_call_id: Option<String>,
    pub reasoning: Option<String>,
    /// The provider's own record of the turn (JSON text), passed back to it
    /// with the next request.
    pub provider_data: Option<String>,
}

/// The values of a [`ToolCall`].
pub struct ToolCallView {
    pub id: Seq<char>,
    pub call_type: Seq<char>,
    pub name: Seq<char>,
    pub arguments: Seq<char>,
}

/// The values of a [`ContentPart`].
pub enum PartView {
    Text(Seq<char>),
    ImageUrl(Seq<char>, Option<Seq<char>>),
    InputAudio(Seq<char>, Seq<char>),
}

/// The values of a [`ChatContent`].
pub enum ContentView {
    Text(Seq<char>),
    Parts(Seq<PartView>),
}

/// The values of a [`ChatMessage`].
pub struct MessageView {
    pub role: Seq<char>,
    pub content: ContentView,
    pub name: Option<Seq<char>>,
    pub tool_calls: Option<Seq<ToolCallView>>,
    pub tool_call_id: Option<Seq<char>>,
    pub reasoning: Option<Seq<char>>,
    pub provider_data: Option<Seq<char>>,
}

impl View for ToolCall {
    type V = ToolCallView;

    open spec fn view(&self) -> ToolCallView {
        ToolCallView {
            id: self.id@,
            call_type: self.call_type@,
            name: self.function.name@,
            arguments: self.function.arguments@,
        }
    }
}

impl View for ContentPart {
    type V = PartView;

    open spec fn view(&self) -> PartView {
        match self {
            ContentPart::Text { text } => PartView::Text(text@),
            ContentPart::ImageUrl { url, detail } => PartView::ImageUrl(url@, ostr(*detail)),
            ContentPart::InputAudio { data, format } => PartView::InputAudio(data@, format@),
        }
    }
}

impl View for ChatContent {
    type V = ContentView;

    open spec fn view(&self) -> ContentView {
        match self {
            ChatContent::Text(s) => ContentView::Text(s@),
            ChatContent::Parts(p) => ContentView::Parts(p@.map_values(|x: ContentPart| x@)),
        }
    }
}

/// The tool calls of a message viewed.
pub open spec fn calls_view(v: Option<Vec<ToolCall>>) -> Option<Seq<ToolCallView>> {
    match v {
        Some(c) => Some(c@.map_values(|t: ToolCall| t@)),
        None => None,
    }
}

impl View for ChatMessage {
    type V = MessageView;

    open spec fn view(&self) -> MessageView {
        MessageView {
            role: self.role@,
            content: self.content@,
            name: ostr(self.name),
            tool_calls: calls_view(self.tool_calls),
            tool_call_id: ostr(self.tool_call_id),
            reasoning: ostr(self.reasoning),
            provider_data: ostr(self.provider_data),
        }
    }
}

impl ToolCall {
    /// A copy whose arguments are cut to `limit` characters (plus `...`) when a limit is given.
    pub fn copy_with_limit(&self, limit: Option<usize>) -> (r: ToolCall)
        ensures
            r@ == (ToolCallView {
                arguments: match limit {
                    Some(n) => truncate_chars(self@.arguments, n as nat),
                    None => self@.arguments,
                },
                ..self@
            }),
    {
        let arguments = match limit {
            Some(n) => truncate(self.function.arguments.as_str(), n),
            None => self.function.arguments.clone(),
        };
        ToolCall {
            id: self.id.clone(),
            call_type: self.call_type.clone(),
            function: FunctionCall { name: self.function.name.clone(), arguments },
        }
    }
}

impl ContentPart {
    /// A copy.
    pub fn copy(&self) -> (r: ContentPart)
        ensures
            r@ == self@,
    {
        match self {
            ContentPart::Text { text } => ContentPart::Text { text: text.clone() },
            ContentPart::ImageUrl { url, detail } => ContentPart::ImageUrl {
                url: url.clone(),
                detail: copy_opt_string(detail),
            },
            ContentPart::InputAudio { data, format } => ContentPart::InputAudio {
                data: data.clone(),
                format: format.clone(),
            },
        }
    }
}

fn copy_parts(p: &Vec<ContentPart>) -> (r: Vec<ContentPart>)
    ensures
        r@.map_values(|x: ContentPart| x@) == p@.map_values(|x: ContentPart| x@),
{
    let n = p.len();
    let mut r: Vec<ContentPart> = Vec::new();
    let mut i: usize = 0;
    while i < n
        invariant
            n == p@.len(),
            i <= n,
            r@.len() == i,
            forall|j: int| 0 <= j < i ==> #[trigger] r@[j]@ == p@[j]@,
        decreases n - i,
    {
        r.push(p[i].copy());
        i += 1;
    }
    assert(r@.map_values(|x: ContentPart| x@) =~= p@.map_values(|x: ContentPart| x@));
    r
}

fn copy_calls(calls: &Vec<ToolCall>, limit: Option<usize>) -> (r: Vec<ToolCall>)
    ensures
        r@.len() == calls@.len(),
        forall|j: int|
            0 <= j < calls@.len() ==> #[trigger] r@[j]@ == (ToolCallView {
                arguments: match limit {
                    Some(n) => truncate_chars(calls@[j]@.arguments, n as nat),
                    None => calls@[j]@.arguments,
                },
                ..calls@[j]@
            }),
{
    let n = calls.len();
    let mut r: Vec<ToolCall> = Vec::new();
    let mut i: usize = 0;
    while i < n
        invariant
            n == calls@.len(),
            i <= n,
            r@.len() == i,
            forall|j: int|
                0 <= j < i ==> #[trigger] r@[j]@ == (ToolCallView {
                    arguments: match limit {
                        Some(n) => truncate_chars(calls@[j]@.arguments, n as nat),
                        None => calls@[j]@.arguments,
                    },
                    ..calls@[j]@
                }),
        decreases n - i,
    {
        r.push(calls[i].copy_with_limit(limit));
        i += 1;
    }
    r
}

/// A tool call's arguments cut to `limit` characters (plus `...`) when a limit is given.
pub open spec fn limit_call(c: ToolCallView, limit: Option<usize>) -> ToolCallView {
    ToolCallView {
        arguments: match limit {
            Some(n) => truncate_chars(c.arguments, n as nat),
            None => c.arguments,
        },
        ..c
    }
}

/// How a message is stored: tool results and tool-call arguments cut to
/// `tool_max_content_len` characters and reasoning to
/// `reasoning_max_content_len` characters (each followed by `...` when cut);
/// everything else as it is.
pub open spec fn stored_view(m: MessageView, config: DatabaseConfig) -> MessageView {
    MessageView {
        content: match (config.tool_max_content_len, m.content) {
            (Some(n), ContentView::Text(s)) => if m.role == "tool"@ {
                ContentView::Text(truncate_chars(s, n as nat))
            } else {
                ContentView::Text(s)
            },
            (_, c) => c,
        },
        tool_calls: match m.tool_calls {
            Some(cs) => Some(cs.map_values(|c: ToolCallView| limit_call(c, config.tool_max_content_len))),
            None => None,
        },
        reasoning: match (config.reasoning_max_content_len, m.reasoning) {
            (Some(n), Some(r)) => Some(truncate_chars(r, n as nat)),
            (_, r) => r,
        },
        ..m
    }
}

/// Storing a message keeps its role, name, tool-call ID and the provider's
/// record of the turn as they are.
pub proof fn lemma_storage_keeps_identity(m: MessageView, config: DatabaseConfig)
    ensures
        stored_view(m, config).role == m.role,
        stored_view(m, config).name == m.name,
        stored_view(m, config).tool_call_id == m.tool_call_id,
        stored_view(m, config).provider_data == m.provider_data,
{
}

impl ChatMessage {
    fn simple(role: &str, content: &str) -> (r: ChatMessage)
        ensures
            r@ == (MessageView {
                role: role@,
                content: ContentView::Text(content@),
                name: None,
                tool_calls: None,
                tool_call_id: None,
                reasoning: None,
                provider_data: None,
            }),
    {
        ChatMessage {
            role: to_owned(role),
            content: ChatContent::Text(to_owned(content)),
            name: None,
            tool_calls: None,
            tool_call_id: None,
            reasoning: None,
            provider_data: None,
        }
    }

    /// A system message.
    pub fn system(content: &str) -> (r: ChatMessage)
        ensures
            r@ == (MessageView {
                role: "system"@,
                content: ContentView::Text(content@),
                name: None,
                tool_calls: None,
                tool_call_id: None,
                reasoning: None,
                provider_data: None,
            }),
    {
        ChatMessage::simple("system", content)
    }

    /// A user message.
    pub fn user(content: &str) -> (r: ChatMessage)
        ensures
            r@ == (MessageView {
                role: "user"@,
                content: ContentView::Text(content@),
                name: None,
                tool_calls: None,
                tool_call_id: None,
                reasoning: None,
                provider_data: None,
            }),
    {
        ChatMessage::simple("user", content)
    }

    /// An assistant message.
    pub fn assistant(content: &str) -> (r: ChatMessage)
        ensures
            r@ == (MessageView {
                role: "assistant"@,
                content: ContentView::Text(content@),
                name: None,
                tool_calls: None,
                tool_call_id: None,
                reasoning: None,
                provider_data: None,
            }),
    {
        ChatMessage::simple("assistant", content)
    }

    /// An assistant message with its reasoning.
    pub fn assistant_with_reasoning(content: &str, reasoning: String) -> (r: ChatMessage)
        ensures
            r@ == (MessageView {
                role: "assistant"@,
                content: ContentView::Text(content@),
                name: None,
                tool_calls: None,
                tool_call_id: None,
                reasoning: Some(reasoning@),
                provider_data: None,
            }),
    {
        let mut m = ChatMessage::simple("assistant", content);
        m.reasoning = Some(reasoning);
        m
    }

    /// An assistant message that only calls tools.
    pub fn assistant_tool_calls(calls: Vec<ToolCall>) -> (r: ChatMessage)
        ensures
            r@ == (MessageView {
                role: "assistant"@,
                content: ContentView::Text(Seq::empty()),
                name: None,
                tool_calls: Some(calls@.map_values(|t: ToolCall| t@)),
                tool_call_id: None,
                reasoning: None,
                provider_data: None,
            }),
    {
        proof {
            reveal_strlit("");
            assert(""@ =~= Seq::<char>::empty());
        }
        let mut m = ChatMessage::simple("assistant", "");
        m.tool_calls = Some(calls);
        m
    }

    /// An assistant message that calls tools, with its reasoning.
    pub fn assistant_tool_calls_with_reasoning(calls: Vec<ToolCall>, reasoning: String) -> (r:
        ChatMessage)
        ensures
            r@ == (MessageView {
                role: "assistant"@,
                content: ContentView::Text(Seq::empty()),
                name: None,
                tool_calls: Some(calls@.map_values(|t: ToolCall| t@)),
                tool_call_id: None,
                reasoning: Some(reasoning@),
                provider_data: None,
            }),
    {
        let mut m = ChatMessage::assistant_tool_calls(calls);
        m.reasoning = Some(reasoning);
        m
    }

    /// The message carrying the provider's record `data`.
    pub fn with_provider_data(self, data: Option<String>) -> (r: ChatMessage)
        ensures
            r@ == (MessageView { provider_data: ostr(data), ..self@ }),
    {
        let mut m = self;
        m.provider_data = data;
        m
    }

    /// The result of tool call `id`.
    pub fn tool_result(id: &str, content: &str) -> (r: ChatMessage)
        ensures
            r@ == (MessageView {
                role: "tool"@,
                content: ContentView::Text(content@),
                name: None,
                tool_calls: None,
                tool_call_id: Some(id@),
                reasoning: None,
                provider_data: None,
            }),
    {
        let mut m = ChatMessage::simple("tool", content);
        m.tool_call_id = Some(to_owned(id));
        m
    }

    /// The message as it is stored under `config`.
    pub fn stored_copy(&self, config: &DatabaseConfig) -> (r: ChatMessage)
        ensures
            r@ == stored_view(self@, *config),
    {
        let content = match &self.content {
            ChatContent::Text(s) => match config.tool_max_content_len {
                Some(n) => if str_eq(self.role.as_str(), "tool") {
                    ChatContent::Text(truncate(s.as_str(), n))
                } else {
                    ChatContent::Text(s.clone())
                },
                None => ChatContent::Text(s.clone()),
            },
            ChatContent::Parts(p) => ChatContent::Parts(copy_parts(p)),
        };
        let tool_calls = match &self.tool_calls {
            Some(cs) => {
                let copied = copy_calls(cs, config.tool_max_content_len);
                assert(copied@.map_values(|t: ToolCall| t@) =~= cs@.map_values(|t: ToolCall| t@).map_values(
                    |c: ToolCallView| limit_call(c, config.tool_max_content_len),
                ));
                Some(copied)
            },
            None => None,
        };
        let reasoning = match &self.reasoning {
            Some(r) => match config.reasoning_max_content_len {
                Some(n) => Some(truncate(r.as_str(), n)),
                None => Some(r.clone()),
            },
            None => None,
        };
        ChatMessage {
            role: self.role.clone(),
            content,
            name: copy_opt_string(&self.name),
            tool_calls,
            tool_call_id: copy_opt_string(&self.tool_call_id),
            reasoning,
            provider_data: copy_opt_string(&self.provider_data),
        }
    }
}

/// The messages as they are stored: one stored message per message, in order.
pub fn prepare_messages_for_storage(msgs: &Vec<ChatMessage>, config: &DatabaseConfig) -> (r: Vec<
    ChatMessage,
>)
    ensures
        r@.len() == msgs@.len(),
        forall|i: int| 0 <= i < msgs@.len() ==> #[trigger] r@[i]@ == stored_view(msgs@[i]@, *config),
{
    let n = msgs.len();
    let mut r: Vec<ChatMessage> = Vec::new();
    let mut i: usize = 0;
    while i < n
        invariant
            n == msgs@.len(),
            i <= n,
            r@.len() == i,
            forall|j: int| 0 <= j < i ==> #[trigger] r@[j]@ == stored_view(msgs@[j]@, *config),
        decreases n - i,
    {
        r.push(msgs[i].stored_copy(config));
        i += 1;
    }
    r
}

/// With no length limits a stored message equals the message.
pub proof fn lemma_storage_without_limits_keeps_messages(m: MessageView, config: DatabaseConfig)
    requires
        config.tool_max_content_len is None,
        config.reasoning_max_content_len is None,
    ensures
        stored_view(m, config) == m,
{
    match m.tool_calls {
        Some(cs) => {
            assert(cs.map_values(|c: ToolCallView| limit_call(c, config.tool_max_content_len)) =~= cs);
        },
        None => {},
    }
}

/// The text that replaces a tool result longer than the limit.
pub open spec fn oversized_result_message(len: nat, limit: nat) -> Seq<char> {
    "Error: tool result exceeded the maximum size limit ("@ + decimal(len) + " chars, limit is "@
        + decimal(limit)
        + " chars). Try reducing the output by filtering it (jq, grep, head, tail, awk), narrowing your query parameters, or using a different tool."@
}

/// A tool result as handed back to the model: unchanged when there is no
/// limit or it fits (in characters), else a message asking for less output.
pub open spec fn spec_cap_tool_result(result: Seq<char>, max_chars: Option<usize>) -> Seq<char> {
    match max_chars {
        None => result,
        Some(limit) => {
            if result.len() <= limit {
                result
            } else {
                oversized_result_message(result.len(), limit as nat)
            }
        },
    }
}

/// A tool result as handed back to the model.
pub fn cap_tool_result(result: &str, max_chars: Option<usize>) -> (r: String)
    ensures
        r@ == spec_cap_tool_result(result@, max_chars),
{
    match max_chars {
        None => to_owned(result),
        Some(limit) => {
            let len = result.unicode_len();
            if len <= limit {
                to_owned(result)
            } else {
                let mut r = to_owned("Error: tool result exceeded the maximum size limit (");
                let a = u64_to_decimal(len as u64);
                push_str(&mut r, a.as_str());
                push_str(&mut r, " chars, limit is ");
                let b = u64_to_decimal(limit as u64);
                push_str(&mut r, b.as_str());
                push_str(
                    &mut r,
                    " chars). Try reducing the output by filtering it (jq, grep, head, tail, awk), narrowing your query parameters, or using a different tool.",
                );
                r
            }
        },
    }
}

/// `s` cut into consecutive pieces of `n` characters (the last may be shorter).
pub open spec fn chunks_of(s: Seq<char>, n: nat) -> Seq<Seq<char>>
    decreases s.len(),
{
    if n == 0 || s.len() <= n {
        seq![s]
    } else {
        seq![s.take(n as int)] + chunks_of(s.skip(n as int), n)
    }
}

/// The texts embedded for `text`: all of it when there is no limit or it
/// fits, else its pieces of `max_chars` characters (when splitting is
/// allowed) or its first `max_chars` characters.
pub open spec fn spec_chunk_for_embedding(text: Seq<char>, max_chars: nat, allow_split: bool) -> Seq<
    Seq<char>,
> {
    if max_chars == 0 || text.len() <= max_chars {
        seq![text]
    } else if allow_split {
        chunks_of(text, max_chars)
    } else {
        seq![text.take(max_chars as int)]
    }
}

/// The texts embedded for `text`.
pub fn chunk_for_embedding(text: &str, max_chars: usize, allow_split: bool) -> (r: Vec<String>)
    ensures
        r@.map_values(|s: String| s@) == spec_chunk_for_embedding(text@, max_chars as nat, allow_split),
{
    let len = text.unicode_len();
    let mut out: Vec<String> = Vec::new();
    if max_chars == 0 || len <= max_chars {
        out.push(to_owned(text));
        assert(out@.map_values(|s: String| s@) =~= seq![text@]);
        return out;
    }
    if !allow_split {
        out.push(to_owned(text.substring_char(0, max_chars)));
        assert(out@.map_values(|s: String| s@) =~= seq![text@.take(max_chars as int)]);
        return out;
    }
    let mut i: usize = 0;
    proof {
        assert(text@.skip(0) =~= text@);
        assert(out@.map_values(|s: String| s@) =~= Seq::<Seq<char>>::empty());
        assert(Seq::<Seq<char>>::empty() + chunks_of(text@, max_chars as nat) =~= chunks_of(text@, max_chars as nat));
    }
    loop
        invariant
            len == text@.len(),
            allow_split,
            0 < max_chars < len,
            i < len,
            out@.map_values(|s: String| s@) + chunks_of(text@.skip(i as int), max_chars as nat)
                == chunks_of(text@, max_chars as nat),
        decreases len - i,
    {
        let ghost rest = text@.skip(i as int);
        if len - i <= max_chars {
            let piece = to_owned(text.substring_char(i, len));
            proof {
                assert(piece@ =~= rest);
                assert(chunks_of(rest, max_chars as nat) == seq![rest]);
            }
            let ghost before = out@.map_values(|s: String| s@);
            out.push(piece);
            assert(out@.map_values(|s: String| s@) =~= before + seq![rest]);
            assert(before + chunks_of(rest, max_chars as nat) == chunks_of(text@, max_chars as nat));
            return out;
        }
        let piece = to_owned(text.substring_char(i, i + max_chars));
        proof {
            assert(piece@ =~= rest.take(max_chars as int));
            assert(rest.skip(max_chars as int) =~= text@.skip(i + max_chars));
            assert(chunks_of(rest, max_chars as nat) == seq![rest.take(max_chars as int)]
                + chunks_of(rest.skip(max_chars as int), max_chars as nat));
        }
        let ghost before = out@.map_values(|s: String| s@);
        out.push(piece);
        assert(out@.map_values(|s: String| s@) =~= before.push(piece@));
        assert(before + (seq![piece@] + chunks_of(text@.skip(i + max_chars), max_chars as nat))
            =~= before.push(piece@) + chunks_of(text@.skip(i + max_chars), max_chars as nat));
        i = i + max_chars;
    }
}

/// Joining the pieces of `chunks_of(s, n)` gives back `s`, and every piece
/// holds at most `n` characters.
pub proof fn lemma_chunks_cover_text(s: Seq<char>, n: nat)
    requires
        n > 0,
    ensures
        chunks_of(s, n).flatten() == s,
        forall|i: int| 0 <= i < chunks_of(s, n).len() ==> #[trigger] chunks_of(s, n)[i].len() <= n,
    decreases s.len(),
{
    if s.len() <= n {
        let c = chunks_of(s, n);
        assert(c == seq![s]);
        assert(c.drop_first() =~= Seq::<Seq<char>>::empty());
        assert(c.drop_first().flatten() == Seq::<char>::empty());
        assert(c.first() + Seq::<char>::empty() =~= s);
    } else {
        let rest = s.skip(n as int);
        lemma_chunks_cover_text(rest, n);
        let tail = chunks_of(rest, n);
        let c = chunks_of(s, n);
        assert(c == seq![s.take(n as int)] + tail);
        assert(c.first() == s.take(n as int));
        assert(c.drop_first() =~= tail);
        assert(s.take(n as int) + rest =~= s);
        assert forall|i: int| 0 <= i < c.len() implies #[trigger] c[i].len() <= n by {
            if i > 0 {
                assert(c[i] == tail[i - 1]);
            }
        }
    }
}

/// How a tool call reads in the text that is embedded for search.
pub open spec fn tool_call_entry(c: ToolCallView) -> Seq<char> {
    "[Tool call]\nName: "@ + c.name + "\nArguments: "@ + c.arguments
}

/// The text under which a message is embedded for search, given its text
/// content `text`: a tool result names its call; an assistant message with
/// tool calls lists them after its text (alone when the text is blank).
pub open spec fn spec_searchable_text(m: MessageView, text: Seq<char>) -> Seq<char> {
    if m.role == "tool"@ {
        "[Tool result]\nCall ID: "@ + match m.tool_call_id {
            Some(i) => i,
            None => "unknown"@,
        } + "\n"@ + text
    } else {
        match m.tool_calls {
            None => text,
            Some(calls) => {
                let listed = join_seq(calls.map_values(|c: ToolCallView| tool_call_entry(c)), "\n\n"@);
                if trim_seq(text).len() == 0 {
                    listed
                } else {
                    text + "\n\n"@ + listed
                }
            },
        }
    }
}

/// The text under which a message is embedded for search; `text` is the
/// message's text content.
pub fn searchable_text(m: &ChatMessage, text: &str) -> (r: String)
    ensures
        r@ == spec_searchable_text(m@, text@),
{
    if str_eq(m.role.as_str(), "tool") {
        let mut out = to_owned("[Tool result]\nCall ID: ");
        match &m.tool_call_id {
            Some(i) => push_str(&mut out, i.as_str()),
            None => push_str(&mut out, "unknown"),
        }
        push_str(&mut out, "\n");
        push_str(&mut out, text);
        return out;
    }
    match &m.tool_calls {
        None => to_owned(text),
        Some(calls) => {
            let n = calls.len();
            let mut entries: Vec<String> = Vec::new();
            let mut i: usize = 0;
            while i < n
                invariant
                    n == calls@.len(),
                    i <= n,
                    entries@.map_values(|e: String| e@) == calls@.take(i as int).map_values(
                        |c: ToolCall| tool_call_entry(c@),
                    ),
                decreases n - i,
            {
                let c = &calls[i];
                let mut e = to_owned("[Tool call]\nName: ");
                push_str(&mut e, c.function.name.as_str());
                push_str(&mut e, "\nArguments: ");
                push_str(&mut e, c.function.arguments.as_str());
                let ghost before = entries@.map_values(|e: String| e@);
                let ghost ev = e@;
                entries.push(e);
                assert(entries@.map_values(|e: String| e@) =~= before.push(ev));
                assert(calls@.take(i + 1).map_values(|c: ToolCall| tool_call_entry(c@))
                    =~= calls@.take(i as int).map_values(|c: ToolCall| tool_call_entry(c@)).push(
                    tool_call_entry(calls@[i as int]@),
                ));
                i += 1;
            }
            proof {
                assert(calls@.take(n as int) =~= calls@);
                assert(calls@.map_values(|c: ToolCall| tool_call_entry(c@)) =~= calls@.map_values(
                    |c: ToolCall| c@,
                ).map_values(|c: ToolCallView| tool_call_entry(c)));
            }
            let listed = join(&entries, "\n\n");
            if trim(text).unicode_len() == 0 {
                listed
            } else {
                let mut out = to_owned(text);
                push_str(&mut out, "\n\n");
                push_str(&mut out, listed.as_str());
                out
            }
        },
    }
}

} // verus!
