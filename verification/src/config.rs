//! Bot configuration: global settings, per-group and per-DM overrides, and
//! the lookups that resolve the effective setting for a chat.
//!
//! A chat ID that starts with `-` names a group; any other ID names a DM.

use vstd::prelude::*;
use crate::strmap::{Duplicate, StrMap};
use crate::text::{starts_with, str_eq, to_owned};

verus! {

/// The option's string viewed as characters.
pub open spec fn ostr(o: Option<String>) -> Option<Seq<char>> {
    match o {
        Some(s) => Some(s@),
        None => None,
    }
}

/// The strings of `v` viewed as characters.
pub open spec fn strs(v: Seq<String>) -> Seq<Seq<char>> {
    v.map_values(|s: String| s@)
}

/// A group chat ID (it starts with `-`); every other ID is a DM.
pub open spec fn is_group_id(chat_id: Seq<char>) -> bool {
    chat_id.len() > 0 && chat_id[0] == '-'
}

/// A copy of an optional string.
pub fn copy_opt_string(o: &Option<String>) -> (r: Option<String>)
    ensures
        r == *o,
{
    match o {
        Some(s) => Some(s.clone()),
        None => None,
    }
}

/// A copy of a list of strings.
pub fn copy_strings(v: &Vec<String>) -> (r: Vec<String>)
    ensures
        r@ == v@,
{
    let mut r: Vec<String> = Vec::new();
    let n = v.len();
    let mut i: usize = 0;
    while i < n
        invariant
            n == v@.len(),
            i <= n,
            r@ == v@.take(i as int),
        decreases n - i,
    {
        r.push(v[i].clone());
        assert(v@.take(i + 1) =~= v@.take(i as int).push(v@[i as int]));
        i += 1;
    }
    assert(v@.take(n as int) =~= v@);
    r
}

/// Whether the chat ID names a group chat.
pub fn is_group_chat(chat_id: &str) -> (r: bool)
    ensures
        r == is_group_id(chat_id@),
{
    proof {
        reveal_strlit("-");
    }
    let r = starts_with(chat_id, "-");
    proof {
        if chat_id@.len() > 0 {
            assert(chat_id@.subrange(0, 1)[0] == chat_id@[0]);
            if chat_id@[0] == '-' {
                assert(chat_id@.subrange(0, 1) =~= "-"@);
            }
        }
    }
    r
}

/// The LLM backend a chat talks to.
#[derive(Clone, Copy, Debug, PartialEq, Eq, Structural)]
pub enum LlmProvider {
    /// OpenRouter's chat completions API.
    Openrouter,
    /// OpenAI's Codex endpoint, with credentials from `codex login`.
    Codex,
}

/// When the bot answers in a group.
#[derive(Clone, Copy, Debug, PartialEq, Eq, Structural)]
pub enum InteractionMode {
    /// Answer every message.
    EveryMessage,
    /// Answer only when mentioned.
    MentionOnly,
}

impl Default for InteractionMode {
    fn default() -> (r: Self)
        ensures
            r == InteractionMode::MentionOnly,
    {
        InteractionMode::MentionOnly
    }
}

/// An MCP (Model Context Protocol) server.
pub struct McpServer {
    /// Display name.
    pub name: String,
    /// `http` (stateless) or `streamable` (session-based).
    pub transport: String,
    /// HTTP endpoint URL.
    pub url: String,
    /// Optional bearer token.
    pub api_key: Option<String>,
}

/// The values of an [`McpServer`].
pub struct McpServerView {
    pub name: Seq<char>,
    pub transport: Seq<char>,
    pub url: Seq<char>,
    pub api_key: Option<Seq<char>>,
}

impl View for McpServer {
    type V = McpServerView;

    open spec fn view(&self) -> McpServerView {
        McpServerView {
            name: self.name@,
            transport: self.transport@,
            url: self.url@,
            api_key: ostr(self.api_key),
        }
    }
}

/// The transport an MCP server uses when none is given: `streamable`.
pub fn default_transport() -> (r: String)
    ensures
        r@ == "streamable"@,
{
    to_owned("streamable")
}

/// Per-group overrides.
pub struct ChatConfig {
    /// Human-readable name.
    pub name: Option<String>,
    /// Model override.
    pub model: Option<String>,
    /// Provider override.
    pub provider: Option<LlmProvider>,
    /// When the bot answers.
    pub interaction_mode: InteractionMode,
    /// Users who may interact; empty means everyone.
    pub interaction_whitelist: Vec<String>,
    /// Users who may run commands; empty means nobody.
    pub command_whitelist: Vec<String>,
    /// Prompt appended to the base system prompt.
    pub system_prompt: String,
    /// Heartbeat interval in minutes (0 disables it).
    pub heartbeat_interval_minutes: Option<u64>,
    /// Override of the global bash setting.
    pub bash_enabled: Option<bool>,
    /// MCP servers whose tools are withheld in this chat.
    pub mcp_blacklist: Vec<String>,
    /// Image fallback model override.
    pub image_fallback_model: Option<String>,
    /// Audio fallback model override.
    pub audio_fallback_model: Option<String>,
    /// Image generation model override.
    pub image_gen_model: Option<String>,
    /// Advice model override.
    pub advice_model: Option<String>,
}

/// The values of a [`ChatConfig`].
pub struct ChatConfigView {
    pub name: Option<Seq<char>>,
    pub model: Option<Seq<char>>,
    pub provider: Option<LlmProvider>,
    pub interaction_mode: InteractionMode,
    pub interaction_whitelist: Seq<Seq<char>>,
    pub command_whitelist: Seq<Seq<char>>,
    pub system_prompt: Seq<char>,
    pub heartbeat_interval_minutes: Option<u64>,
    pub bash_enabled: Option<bool>,
    pub mcp_blacklist: Seq<Seq<char>>,
    pub image_fallback_model: Option<Seq<char>>,
    pub audio_fallback_model: Option<Seq<char>>,
    pub image_gen_model: Option<Seq<char>>,
    pub advice_model: Option<Seq<char>>,
}

impl View for ChatConfig {
    type V = ChatConfigView;

    open spec fn view(&self) -> ChatConfigView {
        ChatConfigView {
            name: ostr(self.name),
            model: ostr(self.model),
            provider: self.provider,
            interaction_mode: self.interaction_mode,
            interaction_whitelist: strs(self.interaction_whitelist@),
            command_whitelist: strs(self.command_whitelist@),
            system_prompt: self.system_prompt@,
            heartbeat_interval_minutes: self.heartbeat_interval_minutes,
            bash_enabled: self.bash_enabled,
            mcp_blacklist: strs(self.mcp_blacklist@),
            image_fallback_model: ostr(self.image_fallback_model),
            audio_fallback_model: ostr(self.audio_fallback_model),
            image_gen_model: ostr(self.image_gen_model),
            advice_model: ostr(self.advice_model),
        }
    }
}

/// The group settings that apply when a group has no entry.
pub open spec fn default_chat_view() -> ChatConfigView {
    ChatConfigView {
        name: None,
        model: None,
        provider: None,
        interaction_mode: InteractionMode::MentionOnly,
        interaction_whitelist: Seq::empty(),
        command_whitelist: Seq::empty(),
        system_prompt: Seq::empty(),
        heartbeat_interval_minutes: None,
        bash_enabled: None,
        mcp_blacklist: Seq::empty(),
        image_fallback_model: None,
        audio_fallback_model: None,
        image_gen_model: None,
        advice_model: None,
    }
}

impl Default for ChatConfig {
    fn default() -> (r: Self)
        ensures
            r@ == default_chat_view(),
    {
        let r = ChatConfig {
            name: None,
            model: None,
            provider: None,
            interaction_mode: InteractionMode::MentionOnly,
            interaction_whitelist: Vec::new(),
            command_whitelist: Vec::new(),
            system_prompt: String::new(),
            heartbeat_interval_minutes: None,
            bash_enabled: None,
            mcp_blacklist: Vec::new(),
            image_fallback_model: None,
            audio_fallback_model: None,
            image_gen_model: None,
            advice_model: None,
        };
        assert(r@.interaction_whitelist =~= Seq::<Seq<char>>::empty());
        assert(r@.command_whitelist =~= Seq::<Seq<char>>::empty());
        assert(r@.mcp_blacklist =~= Seq::<Seq<char>>::empty());
        r
    }
}

impl Duplicate for ChatConfig {
    fn duplicate(&self) -> (r: Self)
        ensures
            r@ == self@,
    {
        ChatConfig {
            name: copy_opt_string(&self.name),
            model: copy_opt_string(&self.model),
            provider: self.provider,
            interaction_mode: self.interaction_mode,
            interaction_whitelist: copy_strings(&self.interaction_whitelist),
            command_whitelist: copy_strings(&self.command_whitelist),
            system_prompt: self.system_prompt.clone(),
            heartbeat_interval_minutes: self.heartbeat_interval_minutes,
            bash_enabled: self.bash_enabled,
            mcp_blacklist: copy_strings(&self.mcp_blacklist),
            image_fallback_model: copy_opt_string(&self.image_fallback_model),
            audio_fallback_model: copy_opt_string(&self.audio_fallback_model),
            image_gen_model: copy_opt_string(&self.image_gen_model),
            advice_model: copy_opt_string(&self.advice_model),
        }
    }
}

/// Per-DM overrides.
pub struct DmConfig {
    /// Human-readable name.
    pub name: Option<String>,
    /// Model override.
    pub model: Option<String>,
    /// Provider override.
    pub provider: Option<LlmProvider>,
    /// Whether most commands are enabled (`/todos`, `/tasks`, `/reminders`
    /// and `/stop` always are).
    pub commands_enabled: bool,
    /// Prompt appended to the base system prompt.
    pub system_prompt: String,
    /// Heartbeat interval in minutes (0 disables it).
    pub heartbeat_interval_minutes: Option<u64>,
    /// Override of the global bash setting.
    pub bash_enabled: Option<bool>,
    /// Image fallback model override.
    pub image_fallback_model: Option<String>,
    /// Audio fallback model override.
    pub audio_fallback_model: Option<String>,
    /// Image generation model override.
    pub image_gen_model: Option<String>,
    /// Advice model override.
    pub advice_model: Option<String>,
}

/// The values of a [`DmConfig`].
pub struct DmConfigView {
    pub name: Option<Seq<char>>,
    pub model: Option<Seq<char>>,
    pub provider: Option<LlmProvider>,
    pub commands_enabled: bool,
    pub system_prompt: Seq<char>,
    pub heartbeat_interval_minutes: Option<u64>,
    pub bash_enabled: Option<bool>,
    pub image_fallback_model: Option<Seq<char>>,
    pub audio_fallback_model: Option<Seq<char>>,
    pub image_gen_model: Option<Seq<char>>,
    pub advice_model: Option<Seq<char>>,
}

impl View for DmConfig {
    type V = DmConfigView;

    open spec fn view(&self) -> DmConfigView {
        DmConfigView {
            name: ostr(self.name),
            model: ostr(self.model),
            provider: self.provider,
            commands_enabled: self.commands_enabled,
            system_prompt: self.system_prompt@,
            heartbeat_interval_minutes: self.heartbeat_interval_minutes,
            bash_enabled: self.bash_enabled,
            image_fallback_model: ostr(self.image_fallback_model),
            audio_fallback_model: ostr(self.audio_fallback_model),
            image_gen_model: ostr(self.image_gen_model),
            advice_model: ostr(self.advice_model),
        }
    }
}

impl Default for DmConfig {
    fn default() -> (r: Self)
        ensures
            r@ == (DmConfigView {
                name: None,
                model: None,
                provider: None,
                commands_enabled: false,
                system_prompt: Seq::empty(),
                heartbeat_interval_minutes: None,
                bash_enabled: None,
                image_fallback_model: None,
                audio_fallback_model: None,
                image_gen_model: None,
                advice_model: None,
            }),
    {
        DmConfig {
            name: None,
            model: None,
            provider: None,
            commands_enabled: false,
            system_prompt: String::new(),
            heartbeat_interval_minutes: None,
            bash_enabled: None,
            image_fallback_model: None,
            audio_fallback_model: None,
            image_gen_model: None,
            advice_model: None,
        }
    }
}

impl Duplicate for DmConfig {
    fn duplicate(&self) -> (r: Self)
        ensures
            r@ == self@,
    {
        DmConfig {
            name: copy_opt_string(&self.name),
            model: copy_opt_string(&self.model),
            provider: self.provider,
            commands_enabled: self.commands_enabled,
            system_prompt: self.system_prompt.clone(),
            heartbeat_interval_minutes: self.heartbeat_interval_minutes,
            bash_enabled: self.bash_enabled,
            image_fallback_model: copy_opt_string(&self.image_fallback_model),
            audio_fallback_model: copy_opt_string(&self.audio_fallback_model),
            image_gen_model: copy_opt_string(&self.image_gen_model),
            advice_model: copy_opt_string(&self.advice_model),
        }
    }
}

/// How conversation history is stored.
#[derive(Clone, Copy, Debug, PartialEq, Eq, Structural)]
pub struct DatabaseConfig {
    /// Whether reasoning text is kept with stored messages.
    pub store_reasoning: bool,
    /// Longest stored tool result or tool-call argument text, in characters.
    pub tool_max_content_len: Option<usize>,
    /// Longest stored reasoning text, in characters.
    pub reasoning_max_content_len: Option<usize>,
}

impl Default for DatabaseConfig {
    fn default() -> (r: Self)
        ensures
            r == (DatabaseConfig {
                store_reasoning: false,
                tool_max_content_len: None,
                reasoning_max_content_len: None,
            }),
    {
        DatabaseConfig {
            store_reasoning: false,
            tool_max_content_len: None,
            reasoning_max_content_len: None,
        }
    }
}

/// How much conversation history is sent to the model.
#[derive(Clone, Copy, Debug, PartialEq, Eq, Structural)]
pub struct ConversationConfig {
    /// Recent messages loaded as context.
    pub recent_messages_window_size: usize,
    /// Recent messages for heartbeat tasks; unset means `recent_messages_window_size`.
    pub heartbeat_recent_messages_window_size: Option<usize>,
    /// Recent messages sent to the advice model.
    pub advice_recent_messages_window_size: usize,
    /// Longest tool result passed back to the model, in characters.
    pub max_tool_result_chars: Option<usize>,
    /// Whether reasoning is included in the context.
    pub include_reasoning: bool,
    /// Whether reasoning is included in what the advice model sees.
    pub advice_include_reasoning: bool,
}

/// Default context window: 20 messages.
pub fn default_recent_messages_window_size() -> (r: usize)
    ensures
        r == 20,
{
    20
}

/// Default advice window: 5 messages.
pub fn default_advice_recent_messages_window_size() -> (r: usize)
    ensures
        r == 5,
{
    5
}

impl Default for ConversationConfig {
    fn default() -> (r: Self)
        ensures
            r == (ConversationConfig {
                recent_messages_window_size: 20,
                heartbeat_recent_messages_window_size: None,
                advice_recent_messages_window_size: 5,
                max_tool_result_chars: None,
                include_reasoning: false,
                advice_include_reasoning: false,
            }),
    {
        ConversationConfig {
            recent_messages_window_size: default_recent_messages_window_size(),
            heartbeat_recent_messages_window_size: None,
            advice_recent_messages_window_size: default_advice_recent_messages_window_size(),
            max_tool_result_chars: None,
            include_reasoning: false,
            advice_include_reasoning: false,
        }
    }
}

/// Conversation vector search settings.
#[derive(Clone, Copy, Debug, PartialEq, Eq, Structural)]
pub struct EmbeddingConfig {
    /// Longest text per embedding in characters (0: no limit).
    pub max_chars: usize,
    /// Split long text into chunks rather than truncating it.
    pub allow_split: bool,
    /// Most embeddings loaded for a similarity search.
    pub search_limit: usize,
}

/// Default similarity search limit: 1000 embeddings.
pub fn default_embedding_search_limit() -> (r: usize)
    ensures
        r == 1000,
{
    1000
}

impl Default for EmbeddingConfig {
    fn default() -> (r: Self)
        ensures
            r == (EmbeddingConfig { max_chars: 0, allow_split: false, search_limit: 1000 }),
    {
        EmbeddingConfig {
            max_chars: 0,
            allow_split: false,
            search_limit: default_embedding_search_limit(),
        }
    }
}

/// OpenRouter settings.
pub struct OpenRouterConfig {
    /// API key.
    pub api_key: String,
    /// Default conversation model.
    pub model: String,
    /// Model that describes images for models without image input.
    pub image_fallback_model: Option<String>,
    /// Model that transcribes audio for models without audio input.
    pub audio_fallback_model: Option<String>,
    /// Image generation model; unset hides the `generate_image` tool.
    pub image_gen_model: Option<String>,
    /// Embedding model for conversation search.
    pub embedding_model: Option<String>,
    /// Model behind the `ask_advisor` tool; unset disables it.
    pub advice_model: Option<String>,
}

/// The values of an [`OpenRouterConfig`].
pub struct OpenRouterView {
    pub api_key: Seq<char>,
    pub model: Seq<char>,
    pub image_fallback_model: Option<Seq<char>>,
    pub audio_fallback_model: Option<Seq<char>>,
    pub image_gen_model: Option<Seq<char>>,
    pub embedding_model: Option<Seq<char>>,
    pub advice_model: Option<Seq<char>>,
}

impl View for OpenRouterConfig {
    type V = OpenRouterView;

    open spec fn view(&self) -> OpenRouterView {
        OpenRouterView {
            api_key: self.api_key@,
            model: self.model@,
            image_fallback_model: ostr(self.image_fallback_model),
            audio_fallback_model: ostr(self.audio_fallback_model),
            image_gen_model: ostr(self.image_gen_model),
            embedding_model: ostr(self.embedding_model),
            advice_model: ostr(self.advice_model),
        }
    }
}

/// Codex subscription settings.
pub struct CodexConfig {
    /// Model.
    pub model: String,
    /// Path of the `auth.json` written by `codex login`.
    pub auth_file: String,
    /// Reasoning effort sent with each request.
    pub reasoning_effort: Option<String>,
    /// Base URL of the backend API.
    pub base_url: String,
}

/// The values of a [`CodexConfig`].
pub struct CodexView {
    pub model: Seq<char>,
    pub auth_file: Seq<char>,
    pub reasoning_effort: Option<Seq<char>>,
    pub base_url: Seq<char>,
}

impl View for CodexConfig {
    type V = CodexView;

    open spec fn view(&self) -> CodexView {
        CodexView {
            model: self.model@,
            auth_file: self.auth_file@,
            reasoning_effort: ostr(self.reasoning_effort),
            base_url: self.base_url@,
        }
    }
}

/// The Codex base URL used when none is given.
pub fn default_codex_base_url() -> (r: String)
    ensures
        r@ == "https://chatgpt.com/backend-api"@,
{
    to_owned("https://chatgpt.com/backend-api")
}

/// Global configuration.
pub struct Config {
    /// Telegram bot token.
    pub telegram_token: String,
    /// Default LLM provider.
    pub provider: LlmProvider,
    /// OpenRouter settings.
    pub openrouter: OpenRouterConfig,
    /// Codex settings.
    pub codex: Option<CodexConfig>,
    /// Context window settings.
    pub conversation: ConversationConfig,
    /// Per-group overrides keyed by chat ID.
    pub chats: StrMap<ChatConfig>,
    /// Per-DM overrides keyed by chat ID.
    pub dms: StrMap<DmConfig>,
    /// Whether DMs are answered; unset means "only when `dms` is empty".
    pub dm_enabled: Option<bool>,
    /// MCP servers.
    pub mcp_servers: Vec<McpServer>,
    /// Default heartbeat interval in minutes.
    pub heartbeat_interval_minutes: u64,
    /// Whether the bash tool is enabled by default.
    pub bash_enabled: bool,
    /// Vector search settings.
    pub embedding: EmbeddingConfig,
    /// Storage settings.
    pub db: DatabaseConfig,
    /// Directory for media files.
    pub media_dir: String,
}

/// Default heartbeat interval: 90 minutes.
pub fn default_heartbeat() -> (r: u64)
    ensures
        r == 90,
{
    90
}

/// Bash is enabled unless configured otherwise.
pub fn default_bash_enabled() -> (r: bool)
    ensures
        r,
{
    true
}

/// Default media directory: `/media`.
pub fn default_media_dir() -> (r: String)
    ensures
        r@ == "/media"@,
{
    to_owned("/media")
}

impl Config {
    /// The DM entry for `chat_id`, if `chat_id` names a DM that has one.
    pub open spec fn dm_entry(&self, chat_id: Seq<char>) -> Option<DmConfigView> {
        if !is_group_id(chat_id) && self.dms@.dom().contains(chat_id) {
            Some(self.dms@[chat_id]@)
        } else {
            None
        }
    }

    /// The group entry stored under `chat_id`, if any.
    pub open spec fn chat_entry(&self, chat_id: Seq<char>) -> Option<ChatConfigView> {
        if self.chats@.dom().contains(chat_id) {
            Some(self.chats@[chat_id]@)
        } else {
            None
        }
    }

    /// First of: the DM entry's value, the group entry's value.
    pub open spec fn override_of<T>(
        &self,
        chat_id: Seq<char>,
        dm_field: spec_fn(DmConfigView) -> Option<T>,
        chat_field: spec_fn(ChatConfigView) -> Option<T>,
    ) -> Option<T> {
        let from_dm = match self.dm_entry(chat_id) {
            Some(d) => dm_field(d),
            None => None,
        };
        match from_dm {
            Some(v) => Some(v),
            None => match self.chat_entry(chat_id) {
                Some(c) => chat_field(c),
                None => None,
            },
        }
    }

    /// The provider a chat uses.
    pub open spec fn spec_provider_for_chat(&self, chat_id: Seq<char>) -> LlmProvider {
        match self.override_of(
            chat_id,
            |d: DmConfigView| d.provider,
            |c: ChatConfigView| c.provider,
        ) {
            Some(p) => p,
            None => self.provider,
        }
    }

    /// Whether the bash tool is enabled in a chat.
    pub open spec fn spec_is_bash_enabled(&self, chat_id: Seq<char>) -> bool {
        match self.override_of(
            chat_id,
            |d: DmConfigView| d.bash_enabled,
            |c: ChatConfigView| c.bash_enabled,
        ) {
            Some(b) => b,
            None => self.bash_enabled,
        }
    }

    /// The heartbeat interval of a chat in minutes, `None` when it is off.
    pub open spec fn spec_heartbeat_interval(&self, chat_id: Seq<char>) -> Option<u64> {
        let interval = match self.override_of(
            chat_id,
            |d: DmConfigView| d.heartbeat_interval_minutes,
            |c: ChatConfigView| c.heartbeat_interval_minutes,
        ) {
            Some(m) => m,
            None => self.heartbeat_interval_minutes,
        };
        if interval == 0 {
            None
        } else {
            Some(interval)
        }
    }

    /// The configured default model of a provider.
    pub open spec fn spec_default_model_for_provider(&self, p: LlmProvider) -> Seq<char> {
        match p {
            LlmProvider::Openrouter => self.openrouter.model@,
            LlmProvider::Codex => match self.codex {
                Some(c) => c.model@,
                None => Seq::empty(),
            },
        }
    }

    /// The model a chat uses.
    pub open spec fn spec_model_for_chat(&self, chat_id: Seq<char>) -> Seq<char> {
        match self.override_of(chat_id, |d: DmConfigView| d.model, |c: ChatConfigView| c.model) {
            Some(m) => m,
            None => self.spec_default_model_for_provider(self.spec_provider_for_chat(chat_id)),
        }
    }

    /// Whether any group or DM entry selects provider `p`.
    pub open spec fn some_entry_uses(&self, p: LlmProvider) -> bool {
        ||| exists|k: Seq<char>| #[trigger]
            self.chats@.dom().contains(k) && self.chats@[k].provider == Some(p)
        ||| exists|k: Seq<char>| #[trigger]
            self.dms@.dom().contains(k) && self.dms@[k].provider == Some(p)
    }

    /// Whether tools of MCP server `server` are offered in a chat: always in a
    /// DM; in a group unless its entry blacklists the server.
    pub open spec fn spec_mcp_server_allowed(&self, chat_id: Seq<char>, server: Seq<char>) -> bool {
        !is_group_id(chat_id) || match self.chat_entry(chat_id) {
            Some(c) => !c.mcp_blacklist.contains(server),
            None => true,
        }
    }

    /// Whether some part of the bot calls OpenRouter.
    pub open spec fn spec_uses_openrouter(&self) -> bool {
        ||| self.provider == LlmProvider::Openrouter
        ||| self.some_entry_uses(LlmProvider::Openrouter)
        ||| self.openrouter.embedding_model is Some
    }

    /// Whether some chat talks to OpenRouter's chat models.
    pub open spec fn chats_use_openrouter(&self) -> bool {
        self.provider == LlmProvider::Openrouter || self.some_entry_uses(
            LlmProvider::Openrouter,
        )
    }

    /// Whether some chat talks to Codex.
    pub open spec fn chats_use_codex(&self) -> bool {
        self.provider == LlmProvider::Codex || self.some_entry_uses(LlmProvider::Codex)
    }

    /// The effective setting of `chat_id` for one of the OpenRouter side models.
    pub open spec fn side_model(
        &self,
        chat_id: Seq<char>,
        dm_field: spec_fn(DmConfigView) -> Option<Seq<char>>,
        chat_field: spec_fn(ChatConfigView) -> Option<Seq<char>>,
        global: Option<Seq<char>>,
    ) -> Option<Seq<char>> {
        match self.override_of(chat_id, dm_field, chat_field) {
            Some(m) => Some(m),
            None => global,
        }
    }
}


/// Why a configuration is refused.
#[derive(Clone, Copy, Debug, PartialEq, Eq, Structural)]
pub enum ConfigError {
    /// The default provider is Codex but there is no `codex` section.
    MissingCodexConfig,
    /// A group or DM selects Codex but there is no `codex` section.
    MissingCodexConfigForChat,
    /// `codex.model` is empty.
    EmptyCodexModel,
    /// OpenRouter is used but `openrouter.api_key` is empty.
    MissingOpenRouterApiKey,
    /// A chat talks to OpenRouter but `openrouter.model` is empty.
    MissingOpenRouterModel,
}

impl ConfigError {
    /// The message shown for the error.
    pub fn message(&self) -> (r: String)
        ensures
            r@ == self.spec_message(),
    {
        match self {
            ConfigError::MissingCodexConfig => to_owned(
                "provider is codex but no codex configuration is present",
            ),
            ConfigError::MissingCodexConfigForChat => to_owned(
                "a codex configuration is required when any chat uses provider codex",
            ),
            ConfigError::EmptyCodexModel => to_owned("codex.model must not be empty"),
            ConfigError::MissingOpenRouterApiKey => to_owned(
                "openrouter.api_key must be set when OpenRouter is used",
            ),
            ConfigError::MissingOpenRouterModel => to_owned(
                "openrouter.model must be set when a chat uses provider openrouter",
            ),
        }
    }

    /// The message shown for the error.
    pub open spec fn spec_message(&self) -> Seq<char> {
        match self {
            ConfigError::MissingCodexConfig => "provider is codex but no codex configuration is present"@,
            ConfigError::MissingCodexConfigForChat => "a codex configuration is required when any chat uses provider codex"@,
            ConfigError::EmptyCodexModel => "codex.model must not be empty"@,
            ConfigError::MissingOpenRouterApiKey => "openrouter.api_key must be set when OpenRouter is used"@,
            ConfigError::MissingOpenRouterModel => "openrouter.model must be set when a chat uses provider openrouter"@,
        }
    }
}

/// The text that replaces secrets in a redacted configuration.
pub open spec fn redaction() -> Seq<char> {
    "[REDACTED]"@
}

fn redaction_string() -> (r: String)
    ensures
        r@ == redaction(),
{
    to_owned("[REDACTED]")
}

impl Config {
    /// The outcome of validation.
    pub open spec fn spec_validate(&self) -> Result<(), ConfigError> {
        if self.provider == LlmProvider::Codex && self.codex is None {
            Err(ConfigError::MissingCodexConfig)
        } else if self.some_entry_uses(LlmProvider::Codex) && self.codex is None {
            Err(ConfigError::MissingCodexConfigForChat)
        } else if self.codex is Some && self.codex.unwrap().model@.len() == 0 {
            Err(ConfigError::EmptyCodexModel)
        } else if self.spec_uses_openrouter() && self.openrouter.api_key@.len() == 0 {
            Err(ConfigError::MissingOpenRouterApiKey)
        } else if self.chats_use_openrouter() && self.openrouter.model@.len() == 0 {
            Err(ConfigError::MissingOpenRouterModel)
        } else {
            Ok(())
        }
    }

    fn dm_entry_ref(&self, chat_id: &str) -> (r: Option<&DmConfig>)
        ensures
            match r {
                Some(d) => self.dm_entry(chat_id@) == Some(d@),
                None => self.dm_entry(chat_id@) is None,
            },
    {
        if is_group_chat(chat_id) {
            None
        } else {
            self.dms.get(chat_id)
        }
    }

    fn chat_entry_ref(&self, chat_id: &str) -> (r: Option<&ChatConfig>)
        ensures
            match r {
                Some(c) => self.chat_entry(chat_id@) == Some(c@),
                None => self.chat_entry(chat_id@) is None,
            },
    {
        self.chats.get(chat_id)
    }

    /// The group settings for `chat_id`: its entry, or the defaults.
    pub fn chat_config(&self, chat_id: &str) -> (r: ChatConfig)
        ensures
            r@ == match self.chat_entry(chat_id@) {
                Some(c) => c,
                None => default_chat_view(),
            },
    {
        match self.chats.get(chat_id) {
            Some(c) => c.duplicate(),
            None => ChatConfig::default(),
        }
    }

    /// The DM entry stored under `chat_id`, if any.
    pub fn dm_config(&self, chat_id: &str) -> (r: Option<&DmConfig>)
        ensures
            match r {
                Some(d) => self.dms@.dom().contains(chat_id@) && *d == self.dms@[chat_id@],
                None => !self.dms@.dom().contains(chat_id@),
            },
    {
        self.dms.get(chat_id)
    }

    /// Whether DMs are answered: the explicit setting, else whether `dms` is empty.
    pub fn dm_enabled_effective(&self) -> (r: bool)
        ensures
            r == match self.dm_enabled {
                Some(b) => b,
                None => self.dms@ == Map::<Seq<char>, DmConfig>::empty(),
            },
    {
        match self.dm_enabled {
            Some(b) => b,
            None => self.dms.is_empty(),
        }
    }

    /// The provider a chat uses: a DM's override, else its group entry's
    /// override, else the global provider.
    pub fn provider_for_chat(&self, chat_id: &str) -> (r: LlmProvider)
        ensures
            r == self.spec_provider_for_chat(chat_id@),
    {
        if let Some(d) = self.dm_entry_ref(chat_id) {
            if let Some(p) = d.provider {
                return p;
            }
        }
        if let Some(c) = self.chat_entry_ref(chat_id) {
            if let Some(p) = c.provider {
                return p;
            }
        }
        self.provider
    }

    /// The configured default model of a provider (empty for Codex without a `codex` section).
    pub fn default_model_for_provider(&self, p: LlmProvider) -> (r: &str)
        ensures
            r@ == self.spec_default_model_for_provider(p),
    {
        proof {
            reveal_strlit("");
        }
        match p {
            LlmProvider::Openrouter => self.openrouter.model.as_str(),
            LlmProvider::Codex => match &self.codex {
                Some(c) => c.model.as_str(),
                None => "",
            },
        }
    }

    /// The default provider's default model.
    pub fn default_model(&self) -> (r: &str)
        ensures
            r@ == self.spec_default_model_for_provider(self.provider),
    {
        self.default_model_for_provider(self.provider)
    }

    /// The model a chat uses: a DM's override, else its group entry's
    /// override, else the default model of the chat's provider.
    pub fn model_for_chat(&self, chat_id: &str) -> (r: &str)
        ensures
            r@ == self.spec_model_for_chat(chat_id@),
    {
        if let Some(d) = self.dm_entry_ref(chat_id) {
            if let Some(m) = &d.model {
                return m.as_str();
            }
        }
        if let Some(c) = self.chat_entry_ref(chat_id) {
            if let Some(m) = &c.model {
                return m.as_str();
            }
        }
        self.default_model_for_provider(self.provider_for_chat(chat_id))
    }

    fn entries_use(&self, p: LlmProvider) -> (r: bool)
        ensures
            r == self.some_entry_uses(p),
    {
        let keys = self.chats.keys();
        let n = keys.len();
        let mut i: usize = 0;
        while i < n
            invariant
                n == keys@.len(),
                i <= n,
                forall|k: Seq<char>|
                    self.chats@.dom().contains(k) <==> exists|j: int|
                        0 <= j < keys@.len() && #[trigger] keys@[j]@ == k,
                forall|j: int|
                    0 <= j < i ==> #[trigger] self.chats@[keys@[j]@].provider != Some(p),
            decreases n - i,
        {
            if let Some(c) = self.chats.get(keys[i].as_str()) {
                if c.provider == Some(p) {
                    return true;
                }
            }
            i += 1;
        }
        let dkeys = self.dms.keys();
        let m = dkeys.len();
        let mut i: usize = 0;
        while i < m
            invariant
                m == dkeys@.len(),
                i <= m,
                forall|k: Seq<char>|
                    self.dms@.dom().contains(k) <==> exists|j: int|
                        0 <= j < dkeys@.len() && #[trigger] dkeys@[j]@ == k,
                forall|j: int|
                    0 <= j < i ==> #[trigger] self.dms@[dkeys@[j]@].provider != Some(p),
            decreases m - i,
        {
            if let Some(d) = self.dms.get(dkeys[i].as_str()) {
                if d.provider == Some(p) {
                    return true;
                }
            }
            i += 1;
        }
        proof {
            assert forall|k: Seq<char>| #[trigger]
                self.chats@.dom().contains(k) implies self.chats@[k].provider != Some(p) by {
                let j = choose|j: int| 0 <= j < keys@.len() && #[trigger] keys@[j]@ == k;
                assert(self.chats@[keys@[j]@].provider != Some(p));
            }
            assert forall|k: Seq<char>| #[trigger]
                self.dms@.dom().contains(k) implies self.dms@[k].provider != Some(p) by {
                let j = choose|j: int| 0 <= j < dkeys@.len() && #[trigger] dkeys@[j]@ == k;
                assert(self.dms@[dkeys@[j]@].provider != Some(p));
            }
        }
        false
    }

    /// Whether some part of the bot calls OpenRouter: the default provider,
    /// a group or DM override, or an embedding model.
    pub fn uses_openrouter(&self) -> (r: bool)
        ensures
            r == self.spec_uses_openrouter(),
    {
        self.provider == LlmProvider::Openrouter || self.entries_use(LlmProvider::Openrouter)
            || self.openrouter.embedding_model.is_some()
    }

    /// Check the settings that loading requires.
    pub fn validate(&self) -> (r: Result<(), ConfigError>)
        ensures
            r == self.spec_validate(),
    {
        let codex_missing = self.codex.is_none();
        if self.provider == LlmProvider::Codex && codex_missing {
            return Err(ConfigError::MissingCodexConfig);
        }
        if codex_missing && self.entries_use(LlmProvider::Codex) {
            return Err(ConfigError::MissingCodexConfigForChat);
        }
        if let Some(c) = &self.codex {
            if c.model.as_str().unicode_len() == 0 {
                return Err(ConfigError::EmptyCodexModel);
            }
        }
        if self.openrouter.api_key.as_str().unicode_len() == 0 && self.uses_openrouter() {
            return Err(ConfigError::MissingOpenRouterApiKey);
        }
        if self.openrouter.model.as_str().unicode_len() == 0 && (self.provider
            == LlmProvider::Openrouter || self.entries_use(LlmProvider::Openrouter)) {
            return Err(ConfigError::MissingOpenRouterModel);
        }
        Ok(())
    }

    /// Whether the bash tool is enabled in a chat: a DM's override, else its
    /// group entry's override, else the global setting.
    pub fn is_bash_enabled(&self, chat_id: &str) -> (r: bool)
        ensures
            r == self.spec_is_bash_enabled(chat_id@),
    {
        if let Some(d) = self.dm_entry_ref(chat_id) {
            if let Some(b) = d.bash_enabled {
                return b;
            }
        }
        if let Some(c) = self.chat_entry_ref(chat_id) {
            if let Some(b) = c.bash_enabled {
                return b;
            }
        }
        self.bash_enabled
    }

    /// The heartbeat interval of a chat in minutes (a DM's override, else its
    /// group entry's override, else the global default), or `None` when it is 0.
    pub fn heartbeat_interval(&self, chat_id: &str) -> (r: Option<u64>)
        ensures
            r == self.spec_heartbeat_interval(chat_id@),
    {
        let mut interval = self.heartbeat_interval_minutes;
        let mut found = false;
        if let Some(d) = self.dm_entry_ref(chat_id) {
            if let Some(m) = d.heartbeat_interval_minutes {
                interval = m;
                found = true;
            }
        }
        if !found {
            if let Some(c) = self.chat_entry_ref(chat_id) {
                if let Some(m) = c.heartbeat_interval_minutes {
                    interval = m;
                }
            }
        }
        if interval == 0 {
            None
        } else {
            Some(interval)
        }
    }

    /// Whether tools of MCP server `server` are offered in a chat: always in a
    /// DM; in a group unless its entry blacklists the server.
    pub fn is_mcp_server_allowed(&self, chat_id: &str, server: &str) -> (r: bool)
        ensures
            r == self.spec_mcp_server_allowed(chat_id@, server@),
    {
        if !is_group_chat(chat_id) {
            return true;
        }
        match self.chats.get(chat_id) {
            Some(c) => !contains_str(&c.mcp_blacklist, server),
            None => true,
        }
    }

    /// The image fallback model of a chat: a DM's override, else its group
    /// entry's override, else the global setting.
    pub fn image_fallback_model_for_chat(&self, chat_id: &str) -> (r: Option<&str>)
        ensures
            opt_view(r) == self.side_model(
                chat_id@,
                |d: DmConfigView| d.image_fallback_model,
                |c: ChatConfigView| c.image_fallback_model,
                self.openrouter@.image_fallback_model,
            ),
    {
        if let Some(d) = self.dm_entry_ref(chat_id) {
            if let Some(m) = &d.image_fallback_model {
                return Some(m.as_str());
            }
        }
        if let Some(c) = self.chat_entry_ref(chat_id) {
            if let Some(m) = &c.image_fallback_model {
                return Some(m.as_str());
            }
        }
        match &self.openrouter.image_fallback_model {
            Some(m) => Some(m.as_str()),
            None => None,
        }
    }

    /// The audio fallback model of a chat: a DM's override, else its group
    /// entry's override, else the global setting.
    pub fn audio_fallback_model_for_chat(&self, chat_id: &str) -> (r: Option<&str>)
        ensures
            opt_view(r) == self.side_model(
                chat_id@,
                |d: DmConfigView| d.audio_fallback_model,
                |c: ChatConfigView| c.audio_fallback_model,
                self.openrouter@.audio_fallback_model,
            ),
    {
        if let Some(d) = self.dm_entry_ref(chat_id) {
            if let Some(m) = &d.audio_fallback_model {
                return Some(m.as_str());
            }
        }
        if let Some(c) = self.chat_entry_ref(chat_id) {
            if let Some(m) = &c.audio_fallback_model {
                return Some(m.as_str());
            }
        }
        match &self.openrouter.audio_fallback_model {
            Some(m) => Some(m.as_str()),
            None => None,
        }
    }

    /// The image generation model of a chat: a DM's override, else its group
    /// entry's override, else the global setting.
    pub fn image_gen_model_for_chat(&self, chat_id: &str) -> (r: Option<&str>)
        ensures
            opt_view(r) == self.side_model(
                chat_id@,
                |d: DmConfigView| d.image_gen_model,
                |c: ChatConfigView| c.image_gen_model,
                self.openrouter@.image_gen_model,
            ),
    {
        if let Some(d) = self.dm_entry_ref(chat_id) {
            if let Some(m) = &d.image_gen_model {
                return Some(m.as_str());
            }
        }
        if let Some(c) = self.chat_entry_ref(chat_id) {
            if let Some(m) = &c.image_gen_model {
                return Some(m.as_str());
            }
        }
        match &self.openrouter.image_gen_model {
            Some(m) => Some(m.as_str()),
            None => None,
        }
    }

    /// The advice model of a chat: none unless the chat talks to OpenRouter;
    /// then a DM's override, else its group entry's override, else the global setting.
    pub fn advice_model_for_chat(&self, chat_id: &str) -> (r: Option<&str>)
        ensures
            opt_view(r) == if self.spec_provider_for_chat(chat_id@) == LlmProvider::Openrouter {
                self.side_model(
                    chat_id@,
                    |d: DmConfigView| d.advice_model,
                    |c: ChatConfigView| c.advice_model,
                    self.openrouter@.advice_model,
                )
            } else {
                None
            },
    {
        if self.provider_for_chat(chat_id) != LlmProvider::Openrouter {
            return None;
        }
        if let Some(d) = self.dm_entry_ref(chat_id) {
            if let Some(m) = &d.advice_model {
                return Some(m.as_str());
            }
        }
        if let Some(c) = self.chat_entry_ref(chat_id) {
            if let Some(m) = &c.advice_model {
                return Some(m.as_str());
            }
        }
        match &self.openrouter.advice_model {
            Some(m) => Some(m.as_str()),
            None => None,
        }
    }

    /// The context window of heartbeat tasks: its own setting, else the normal one.
    pub fn heartbeat_recent_messages_window_size(&self) -> (r: usize)
        ensures
            r == match self.conversation.heartbeat_recent_messages_window_size {
                Some(n) => n,
                None => self.conversation.recent_messages_window_size,
            },
    {
        match self.conversation.heartbeat_recent_messages_window_size {
            Some(n) => n,
            None => self.conversation.recent_messages_window_size,
        }
    }

    /// A copy with the Telegram token, the OpenRouter API key, the Codex auth
    /// file and every MCP API key replaced by `[REDACTED]`.
    pub fn redacted(&self) -> (r: Config)
        ensures
            r.telegram_token@ == redaction(),
            r.provider == self.provider,
            r.openrouter@ == (OpenRouterView { api_key: redaction(), ..self.openrouter@ }),
            match self.codex {
                Some(c) => r.codex is Some && r.codex.unwrap()@ == (CodexView {
                    auth_file: redaction(),
                    ..c@
                }),
                None => r.codex is None,
            },
            r.conversation == self.conversation,
            r.chats.deep() == self.chats.deep(),
            r.dms.deep() == self.dms.deep(),
            r.dm_enabled == self.dm_enabled,
            r.mcp_servers@.len() == self.mcp_servers@.len(),
            forall|i: int|
                0 <= i < self.mcp_servers@.len() ==> #[trigger] r.mcp_servers@[i]@ == (
                McpServerView {
                    api_key: match self.mcp_servers@[i].api_key {
                        Some(_) => Some(redaction()),
                        None => None,
                    },
                    ..self.mcp_servers@[i]@
                }),
            r.heartbeat_interval_minutes == self.heartbeat_interval_minutes,
            r.bash_enabled == self.bash_enabled,
            r.embedding == self.embedding,
            r.db == self.db,
            r.media_dir@ == self.media_dir@,
    {
        let n = self.mcp_servers.len();
        let mut servers: Vec<McpServer> = Vec::new();
        let mut i: usize = 0;
        while i < n
            invariant
                n == self.mcp_servers@.len(),
                i <= n,
                servers@.len() == i,
                forall|j: int|
                    0 <= j < i ==> #[trigger] servers@[j]@ == (McpServerView {
                        api_key: match self.mcp_servers@[j].api_key {
                            Some(_) => Some(redaction()),
                            None => None,
                        },
                        ..self.mcp_servers@[j]@
                    }),
            decreases n - i,
        {
            let s = &self.mcp_servers[i];
            let api_key = match &s.api_key {
                Some(_) => Some(redaction_string()),
                None => None,
            };
            servers.push(
                McpServer {
                    name: s.name.clone(),
                    transport: s.transport.clone(),
                    url: s.url.clone(),
                    api_key,
                },
            );
            i += 1;
        }
        let codex = match &self.codex {
            Some(c) => Some(
                CodexConfig {
                    model: c.model.clone(),
                    auth_file: redaction_string(),
                    reasoning_effort: copy_opt_string(&c.reasoning_effort),
                    base_url: c.base_url.clone(),
                },
            ),
            None => None,
        };
        Config {
            telegram_token: redaction_string(),
            provider: self.provider,
            openrouter: OpenRouterConfig {
                api_key: redaction_string(),
                model: self.openrouter.model.clone(),
                image_fallback_model: copy_opt_string(&self.openrouter.image_fallback_model),
                audio_fallback_model: copy_opt_string(&self.openrouter.audio_fallback_model),
                image_gen_model: copy_opt_string(&self.openrouter.image_gen_model),
                embedding_model: copy_opt_string(&self.openrouter.embedding_model),
                advice_model: copy_opt_string(&self.openrouter.advice_model),
            },
            codex,
            conversation: self.conversation,
            chats: self.chats.duplicate(),
            dms: self.dms.duplicate(),
            dm_enabled: self.dm_enabled,
            mcp_servers: servers,
            heartbeat_interval_minutes: self.heartbeat_interval_minutes,
            bash_enabled: self.bash_enabled,
            embedding: self.embedding,
            db: self.db,
            media_dir: self.media_dir.clone(),
        }
    }
}

/// An optional string slice viewed as characters.
pub open spec fn opt_view(o: Option<&str>) -> Option<Seq<char>> {
    match o {
        Some(s) => Some(s@),
        None => None,
    }
}

/// Whether `v` holds a string equal to `s`.
pub fn contains_str(v: &Vec<String>, s: &str) -> (r: bool)
    ensures
        r == strs(v@).contains(s@),
{
    let n = v.len();
    let mut i: usize = 0;
    while i < n
        invariant
            n == v@.len(),
            i <= n,
            forall|j: int| 0 <= j < i ==> v@[j]@ != s@,
        decreases n - i,
    {
        if str_eq(v[i].as_str(), s) {
            assert(strs(v@)[i as int] == s@);
            return true;
        }
        i += 1;
    }
    assert forall|j: int| 0 <= j < strs(v@).len() implies strs(v@)[j] != s@ by {
        assert(strs(v@)[j] == v@[j]@);
    }
    false
}

/// A minimal configuration: token `test-token`, OpenRouter key `test-key`
/// and model `test/model`, and every other setting at its default.
pub fn basic_config() -> (r: Config)
    ensures
        r.telegram_token@ == "test-token"@,
        r.provider == LlmProvider::Openrouter,
        r.openrouter@ == (OpenRouterView {
            api_key: "test-key"@,
            model: "test/model"@,
            image_fallback_model: None,
            audio_fallback_model: None,
            image_gen_model: None,
            embedding_model: None,
            advice_model: None,
        }),
        r.codex is None,
        r.conversation == (ConversationConfig {
            recent_messages_window_size: 20,
            heartbeat_recent_messages_window_size: None,
            advice_recent_messages_window_size: 5,
            max_tool_result_chars: None,
            include_reasoning: false,
            advice_include_reasoning: false,
        }),
        r.chats@ == Map::<Seq<char>, ChatConfig>::empty(),
        r.dms@ == Map::<Seq<char>, DmConfig>::empty(),
        r.dm_enabled is None,
        r.mcp_servers@.len() == 0,
        r.heartbeat_interval_minutes == 90,
        r.bash_enabled,
        r.embedding == (EmbeddingConfig { max_chars: 0, allow_split: false, search_limit: 1000 }),
        r.db == (DatabaseConfig {
            store_reasoning: false,
            tool_max_content_len: None,
            reasoning_max_content_len: None,
        }),
        r.media_dir@ == "/media"@,
{
    Config {
        telegram_token: to_owned("test-token"),
        provider: LlmProvider::Openrouter,
        openrouter: OpenRouterConfig {
            api_key: to_owned("test-key"),
            model: to_owned("test/model"),
            image_fallback_model: None,
            audio_fallback_model: None,
            image_gen_model: None,
            embedding_model: None,
            advice_model: None,
        },
        codex: None,
        conversation: ConversationConfig::default(),
        chats: StrMap::new(),
        dms: StrMap::new(),
        dm_enabled: None,
        mcp_servers: Vec::new(),
        heartbeat_interval_minutes: default_heartbeat(),
        bash_enabled: default_bash_enabled(),
        embedding: EmbeddingConfig::default(),
        db: DatabaseConfig::default(),
        media_dir: default_media_dir(),
    }
}


/// Where a chat's settings come from: a DM's own entry first (for chat IDs
/// not starting with `-`), then the chat's entry under `chats`, then the
/// global setting; a heartbeat interval of 0 turns the heartbeat off, and the
/// model defaults to that of the chat's provider.
pub proof fn lemma_chat_settings_precedence(config: Config, chat_id: Seq<char>)
    ensures
        ({
            let in_dms = !is_group_id(chat_id) && config.dms@.dom().contains(chat_id);
            let d = config.dms@[chat_id]@;
            let in_chats = config.chats@.dom().contains(chat_id);
            let c = config.chats@[chat_id]@;
            &&& config.spec_is_bash_enabled(chat_id) == if in_dms && d.bash_enabled is Some {
                d.bash_enabled->0
            } else if in_chats && c.bash_enabled is Some {
                c.bash_enabled->0
            } else {
                config.bash_enabled
            }
            &&& config.spec_provider_for_chat(chat_id) == if in_dms && d.provider is Some {
                d.provider->0
            } else if in_chats && c.provider is Some {
                c.provider->0
            } else {
                config.provider
            }
            &&& config.spec_model_for_chat(chat_id) == if in_dms && d.model is Some {
                d.model->0
            } else if in_chats && c.model is Some {
                c.model->0
            } else {
                config.spec_default_model_for_provider(config.spec_provider_for_chat(chat_id))
            }
            &&& config.spec_heartbeat_interval(chat_id) == {
                let m = if in_dms && d.heartbeat_interval_minutes is Some {
                    d.heartbeat_interval_minutes->0
                } else if in_chats && c.heartbeat_interval_minutes is Some {
                    c.heartbeat_interval_minutes->0
                } else {
                    config.heartbeat_interval_minutes
                };
                if m == 0 {
                    None
                } else {
                    Some(m)
                }
            }
        }),
{
}
} // verus!
