//! Bot commands: parsing, permission checks, and the replies that need no I/O.

use vstd::prelude::*;
use vstd::utf8::encode_utf8;
use crate::config::{
    default_chat_view, is_group_chat, is_group_id, strs, ChatConfig, ChatConfigView, Config,
    InteractionMode, LlmProvider,
};
use crate::text::{
    has_prefix, has_suffix, is_ws, join, join_seq, push_str, split_once, split_once_seq, starts_with, str_eq, to_owned,
    trim, trim_end, trim_seq, trim_start, u64_to_decimal, decimal,
};

verus! {

/// A parsed bot command.
#[derive(Debug, Clone, PartialEq, Eq)]
pub enum Command {
    /// `/status`
    Status,
    /// `/codex_usage`: Codex allowance and reset times.
    CodexUsage,
    /// `/stop`
    Stop,
    /// `/tasks`
    Tasks,
    /// `/todos`; `true` with the `details` argument (IDs and timestamps).
    Todos(bool),
    /// `/reminders`
    Reminders,
    /// `/run`: run the heartbeat task now.
    Run,
    /// `/new`: forget the history before this point.
    New,
    /// `/prompt`: show the prompt that would be sent.
    Prompt,
    /// `/tools`
    Tools,
    /// `/config`
    Config,
    /// `/config_schema`
    ConfigSchema,
    /// `/models`: browse and switch models.
    Models,
    /// `/model_default` or `/model_reset`.
    ModelDefault,
    /// `/model [model-id|:specifier]`
    Model(Option<String>),
}

/// A command with its argument viewed as characters.
pub enum CommandView {
    Status,
    CodexUsage,
    Stop,
    Tasks,
    Todos(bool),
    Reminders,
    Run,
    New,
    Prompt,
    Tools,
    Config,
    ConfigSchema,
    Models,
    ModelDefault,
    Model(Option<Seq<char>>),
}

impl View for Command {
    type V = CommandView;

    open spec fn view(&self) -> CommandView {
        match self {
            Command::Status => CommandView::Status,
            Command::CodexUsage => CommandView::CodexUsage,
            Command::Stop => CommandView::Stop,
            Command::Tasks => CommandView::Tasks,
            Command::Todos(d) => CommandView::Todos(*d),
            Command::Reminders => CommandView::Reminders,
            Command::Run => CommandView::Run,
            Command::New => CommandView::New,
            Command::Prompt => CommandView::Prompt,
            Command::Tools => CommandView::Tools,
            Command::Config => CommandView::Config,
            Command::ConfigSchema => CommandView::ConfigSchema,
            Command::Models => CommandView::Models,
            Command::ModelDefault => CommandView::ModelDefault,
            Command::Model(m) => CommandView::Model(
                match m {
                    Some(s) => Some(s@),
                    None => None,
                },
            ),
        }
    }
}

/// An optional command viewed.
pub open spec fn opt_command_view(c: Option<Command>) -> Option<CommandView> {
    match c {
        Some(c) => Some(c@),
        None => None,
    }
}

/// `c` with ASCII upper case letters made lower case.
pub open spec fn ascii_lower(c: char) -> char {
    if 'A' <= c && c <= 'Z' {
        ((c as u32) + 32) as char
    } else {
        c
    }
}

/// `a` lower-cases to `details` (only ASCII letters lower-case to these letters).
pub open spec fn is_details(a: Seq<char>) -> bool {
    a.len() == 7 && forall|i: int| 0 <= i < 7 ==> ascii_lower(#[trigger] a[i]) == "details"@[i]
}

/// The command word of a trimmed message: the part before the first space
/// (trimmed), without any `@botname` suffix.
pub open spec fn command_word(t: Seq<char>) -> Seq<char> {
    let cmd = match split_once_seq(t, ' ') {
        Some((c, _)) => trim_seq(c),
        None => t,
    };
    match split_once_seq(cmd, '@') {
        Some((base, _)) => base,
        None => cmd,
    }
}

/// The argument text of a trimmed message: what follows the first space, trimmed.
pub open spec fn command_args(t: Seq<char>) -> Option<Seq<char>> {
    match split_once_seq(t, ' ') {
        Some((_, a)) => Some(trim_seq(a)),
        None => None,
    }
}

/// The command a message holds, if any.
pub open spec fn spec_parse_command(text: Seq<char>) -> Option<CommandView> {
    let t = trim_seq(text);
    let cmd = command_word(t);
    let args = command_args(t);
    if !has_prefix(t, "/"@) {
        None
    } else if cmd == "/status"@ {
        Some(CommandView::Status)
    } else if cmd == "/codex_usage"@ {
        Some(CommandView::CodexUsage)
    } else if cmd == "/stop"@ {
        Some(CommandView::Stop)
    } else if cmd == "/tasks"@ {
        Some(CommandView::Tasks)
    } else if cmd == "/todos"@ {
        Some(
            CommandView::Todos(
                match args {
                    Some(a) => is_details(a),
                    None => false,
                },
            ),
        )
    } else if cmd == "/reminders"@ {
        Some(CommandView::Reminders)
    } else if cmd == "/run"@ {
        Some(CommandView::Run)
    } else if cmd == "/new"@ {
        Some(CommandView::New)
    } else if cmd == "/prompt"@ {
        Some(CommandView::Prompt)
    } else if cmd == "/tools"@ {
        Some(CommandView::Tools)
    } else if cmd == "/config"@ {
        Some(CommandView::Config)
    } else if cmd == "/config_schema"@ {
        Some(CommandView::ConfigSchema)
    } else if cmd == "/models"@ {
        Some(CommandView::Models)
    } else if cmd == "/model_default"@ || cmd == "/model_reset"@ {
        Some(CommandView::ModelDefault)
    } else if cmd == "/model"@ {
        Some(
            CommandView::Model(
                match args {
                    Some(a) => if a.len() > 0 {
                        Some(a)
                    } else {
                        None
                    },
                    None => None,
                },
            ),
        )
    } else {
        None
    }
}

fn lower_ascii(c: char) -> (r: char)
    ensures
        r == ascii_lower(c),
{
    if 'A' <= c && c <= 'Z' {
        let x = (c as u32) + 32;
        proof {
            assert(0x61 <= x <= 0x7a);
        }
        // x is an ASCII lower case letter, so it is a char
        char_from_ascii(x)
    } else {
        c
    }
}

fn char_from_ascii(x: u32) -> (c: char)
    requires
        x < 128,
    ensures
        c == x as char,
{
    (x as u8) as char
}

fn details_arg(a: &str) -> (r: bool)
    ensures
        r == is_details(a@),
{
    proof {
        reveal_strlit("details");
    }
    let word = "details";
    if a.unicode_len() != 7 {
        return false;
    }
    let mut i: usize = 0;
    while i < 7
        invariant
            a@.len() == 7,
            word@ == "details"@,
            word@.len() == 7,
            i <= 7,
            forall|j: int| 0 <= j < i ==> ascii_lower(#[trigger] a@[j]) == "details"@[j],
        decreases 7 - i,
    {
        if lower_ascii(a.get_char(i)) != word.get_char(i) {
            return false;
        }
        i += 1;
    }
    true
}

/// Parse a message as a bot command.
///
/// The message is trimmed and must start with `/`. The command word is what
/// precedes the first space, trimmed, without any `@botname` suffix. `/todos`
/// takes the argument `details` in any case; `/model` takes an optional
/// non-empty argument.
pub fn parse_command(text: &str) -> (r: Option<Command>)
    ensures
        opt_command_view(r) == spec_parse_command(text@),
{
    let t = trim(text);
    if !starts_with(t, "/") {
        return None;
    }
    let (cmd, args) = match split_once(t, ' ') {
        Some((c, a)) => (trim(c), Some(trim(a))),
        None => (t, None),
    };
    let cmd = match split_once(cmd, '@') {
        Some((base, _)) => base,
        None => cmd,
    };
    if str_eq(cmd, "/status") {
        Some(Command::Status)
    } else if str_eq(cmd, "/codex_usage") {
        Some(Command::CodexUsage)
    } else if str_eq(cmd, "/stop") {
        Some(Command::Stop)
    } else if str_eq(cmd, "/tasks") {
        Some(Command::Tasks)
    } else if str_eq(cmd, "/todos") {
        let details = match args {
            Some(a) => details_arg(a),
            None => false,
        };
        Some(Command::Todos(details))
    } else if str_eq(cmd, "/reminders") {
        Some(Command::Reminders)
    } else if str_eq(cmd, "/run") {
        Some(Command::Run)
    } else if str_eq(cmd, "/new") {
        Some(Command::New)
    } else if str_eq(cmd, "/prompt") {
        Some(Command::Prompt)
    } else if str_eq(cmd, "/tools") {
        Some(Command::Tools)
    } else if str_eq(cmd, "/config") {
        Some(Command::Config)
    } else if str_eq(cmd, "/config_schema") {
        Some(Command::ConfigSchema)
    } else if str_eq(cmd, "/models") {
        Some(Command::Models)
    } else if str_eq(cmd, "/model_default") || str_eq(cmd, "/model_reset") {
        Some(Command::ModelDefault)
    } else if str_eq(cmd, "/model") {
        let arg = match args {
            Some(a) => if a.unicode_len() > 0 {
                Some(to_owned(a))
            } else {
                None
            },
            None => None,
        };
        Some(Command::Model(arg))
    } else {
        None
    }
}

/// Whether a user may run commands in a group: only users on its command
/// whitelist (an empty whitelist admits nobody).
pub fn can_run_command(chat_config: &ChatConfig, user_id: &str) -> (r: bool)
    ensures
        r == (chat_config@.command_whitelist.len() > 0
            && chat_config@.command_whitelist.contains(user_id@)),
{
    if chat_config.command_whitelist.len() == 0 {
        return false;
    }
    crate::config::contains_str(&chat_config.command_whitelist, user_id)
}

/// Whether a user may talk to the bot in a group: everyone when the
/// interaction whitelist is empty, else only users on it.
pub fn can_interact(chat_config: &ChatConfig, user_id: &str) -> (r: bool)
    ensures
        r == (chat_config@.interaction_whitelist.len() == 0
            || chat_config@.interaction_whitelist.contains(user_id@)),
{
    if chat_config.interaction_whitelist.len() == 0 {
        return true;
    }
    crate::config::contains_str(&chat_config.interaction_whitelist, user_id)
}

/// How `/status` names a provider.
pub open spec fn provider_name(p: LlmProvider) -> Seq<char> {
    match p {
        LlmProvider::Openrouter => "openrouter"@,
        LlmProvider::Codex => "codex"@,
    }
}

/// How `/status` names an interaction mode.
pub open spec fn mode_name(m: InteractionMode) -> Seq<char> {
    match m {
        InteractionMode::EveryMessage => "EveryMessage"@,
        InteractionMode::MentionOnly => "MentionOnly"@,
    }
}

/// A whitelist as `/status` shows it: the IDs joined by `, `, or `empty` when there are none.
pub open spec fn whitelist_text(ids: Seq<Seq<char>>, empty: Seq<char>) -> Seq<char> {
    if ids.len() == 0 {
        empty
    } else {
        join_seq(ids, ", "@)
    }
}

/// The `Name: ...` line, present when a name is set.
pub open spec fn name_line(name: Option<Seq<char>>) -> Seq<char> {
    match name {
        Some(n) => "Name: "@ + n + "\n"@,
        None => Seq::empty(),
    }
}

/// The header lines `/status` shows in every chat.
pub open spec fn status_header(
    name: Option<Seq<char>>,
    chat_id: Seq<char>,
    provider: LlmProvider,
    model: Seq<char>,
    context_usage: Seq<char>,
) -> Seq<char> {
    name_line(name) + "Chat ID: "@ + chat_id + "\nProvider: "@ + provider_name(provider)
        + "\nModel: "@ + model + "\nContext usage: "@ + context_usage
}

/// The `/status` reply of a group.
pub open spec fn group_status(
    chat: ChatConfigView,
    chat_id: Seq<char>,
    provider: LlmProvider,
    model: Seq<char>,
    context_usage: Seq<char>,
) -> Seq<char> {
    status_header(chat.name, chat_id, provider, model, context_usage) + "\nInteraction mode: "@
        + mode_name(chat.interaction_mode) + "\nInteraction whitelist: "@ + whitelist_text(
        chat.interaction_whitelist,
        "everyone"@,
    ) + "\nCommand whitelist: "@ + whitelist_text(chat.command_whitelist, "nobody"@)
}

/// The `/status` reply of a DM, given its entry if it has one.
pub open spec fn dm_status(
    dm: Option<crate::config::DmConfigView>,
    chat_id: Seq<char>,
    provider: LlmProvider,
    model: Seq<char>,
    context_usage: Seq<char>,
) -> Seq<char> {
    let name = match dm {
        Some(d) => d.name,
        None => None,
    };
    let commands = match dm {
        Some(d) => if d.commands_enabled {
            "enabled"@
        } else {
            "disabled"@
        },
        None => "disabled (no DM config)"@,
    };
    let prompt = match dm {
        Some(d) => if d.system_prompt.len() == 0 {
            "not set"@
        } else {
            "set ("@ + decimal(d.system_prompt.len()) + " chars)"@
        },
        None => "not set (no DM config)"@,
    };
    status_header(name, chat_id, provider, model, context_usage) + "\nDM commands: "@ + commands
        + "\nDM system prompt: "@ + prompt
}

/// The reply to `command` in chat `chat_id`, with the current model and
/// provider as given (else as configured for the chat).
pub open spec fn spec_handle_command(
    command: CommandView,
    config: Config,
    chat_id: Seq<char>,
    context_usage: Seq<char>,
    effective_model: Option<Seq<char>>,
    effective_provider: Option<LlmProvider>,
) -> Seq<char> {
    let model = match effective_model {
        Some(m) => m,
        None => config.spec_model_for_chat(chat_id),
    };
    let provider = match effective_provider {
        Some(p) => p,
        None => config.spec_provider_for_chat(chat_id),
    };
    match command {
        CommandView::Status => if is_group_id(chat_id) {
            group_status(
                match config.chat_entry(chat_id) {
                    Some(c) => c,
                    None => default_chat_view(),
                },
                chat_id,
                provider,
                model,
                context_usage,
            )
        } else {
            dm_status(
                if config.dms@.dom().contains(chat_id) {
                    Some(config.dms@[chat_id]@)
                } else {
                    None
                },
                chat_id,
                provider,
                model,
                context_usage,
            )
        },
        CommandView::Stop => "Stop command received."@,
        _ => Seq::empty(),
    }
}

fn append_header(
    out: &mut String,
    name: &Option<String>,
    chat_id: &str,
    provider: LlmProvider,
    model: &str,
    context_usage: &str,
)
    ensures
        final(out)@ == old(out)@ + status_header(
            crate::config::ostr(*name),
            chat_id@,
            provider,
            model@,
            context_usage@,
        ),
{
    let ghost start = out@;
    if let Some(n) = name {
        push_str(out, "Name: ");
        push_str(out, n.as_str());
        push_str(out, "\n");
    }
    assert(out@ == start + name_line(crate::config::ostr(*name)));
    push_str(out, "Chat ID: ");
    push_str(out, chat_id);
    push_str(out, "\nProvider: ");
    match provider {
        LlmProvider::Openrouter => push_str(out, "openrouter"),
        LlmProvider::Codex => push_str(out, "codex"),
    }
    push_str(out, "\nModel: ");
    push_str(out, model);
    push_str(out, "\nContext usage: ");
    push_str(out, context_usage);
    assert(out@ =~= start + status_header(
        crate::config::ostr(*name),
        chat_id@,
        provider,
        model@,
        context_usage@,
    ));
}

fn group_status_text(
    chat: &ChatConfig,
    chat_id: &str,
    provider: LlmProvider,
    model: &str,
    context_usage: &str,
) -> (r: String)
    ensures
        r@ == group_status(chat@, chat_id@, provider, model@, context_usage@),
{
    let mut out = String::new();
    append_header(&mut out, &chat.name, chat_id, provider, model, context_usage);
    let ghost head = out@;
    push_str(&mut out, "\nInteraction mode: ");
    match chat.interaction_mode {
        InteractionMode::EveryMessage => push_str(&mut out, "EveryMessage"),
        InteractionMode::MentionOnly => push_str(&mut out, "MentionOnly"),
    }
    push_str(&mut out, "\nInteraction whitelist: ");
    if chat.interaction_whitelist.len() == 0 {
        push_str(&mut out, "everyone");
    } else {
        let j = join(&chat.interaction_whitelist, ", ");
        push_str(&mut out, j.as_str());
    }
    push_str(&mut out, "\nCommand whitelist: ");
    if chat.command_whitelist.len() == 0 {
        push_str(&mut out, "nobody");
    } else {
        let j = join(&chat.command_whitelist, ", ");
        push_str(&mut out, j.as_str());
    }
    assert(out@ =~= group_status(chat@, chat_id@, provider, model@, context_usage@));
    out
}

fn dm_status_text(
    dm: Option<&crate::config::DmConfig>,
    chat_id: &str,
    provider: LlmProvider,
    model: &str,
    context_usage: &str,
) -> (r: String)
    ensures
        r@ == dm_status(
            match dm {
                Some(d) => Some(d@),
                None => None,
            },
            chat_id@,
            provider,
            model@,
            context_usage@,
        ),
{
    let mut out = String::new();
    let no_name: Option<String> = None;
    match dm {
        Some(d) => append_header(&mut out, &d.name, chat_id, provider, model, context_usage),
        None => append_header(&mut out, &no_name, chat_id, provider, model, context_usage),
    }
    push_str(&mut out, "\nDM commands: ");
    match dm {
        Some(d) => if d.commands_enabled {
            push_str(&mut out, "enabled")
        } else {
            push_str(&mut out, "disabled")
        },
        None => push_str(&mut out, "disabled (no DM config)"),
    }
    push_str(&mut out, "\nDM system prompt: ");
    match dm {
        Some(d) => {
            if d.system_prompt.as_str().unicode_len() == 0 {
                push_str(&mut out, "not set");
            } else {
                push_str(&mut out, "set (");
                let len = d.system_prompt.as_str().unicode_len();
                let digits = u64_to_decimal(len as u64);
                push_str(&mut out, digits.as_str());
                push_str(&mut out, " chars)");
            }
        },
        None => push_str(&mut out, "not set (no DM config)"),
    }
    assert(out@ =~= dm_status(
        match dm {
            Some(d) => Some(d@),
            None => None,
        },
        chat_id@,
        provider,
        model@,
        context_usage@,
    ));
    out
}

/// The reply to a command that needs no I/O; `effective_model` and
/// `effective_provider` override the configured model and provider shown by `/status`.
///
/// `/status` describes the chat; `/stop` acknowledges; the other commands
/// reply with the empty string (their handling needs I/O).
pub fn handle_command_with_model(
    command: &Command,
    config: &mut Config,
    chat_id: &str,
    context_usage: &str,
    effective_model: Option<&str>,
    effective_provider: Option<LlmProvider>,
) -> (r: String)
    ensures
        r@ == spec_handle_command(
            command@,
            *old(config),
            chat_id@,
            context_usage@,
            crate::config::opt_view(effective_model),
            effective_provider,
        ),
        *final(config) == *old(config),
{
    match command {
        Command::Status => {
            let model = match effective_model {
                Some(m) => m,
                None => config.model_for_chat(chat_id),
            };
            let provider = match effective_provider {
                Some(p) => p,
                None => config.provider_for_chat(chat_id),
            };
            if is_group_chat(chat_id) {
                let chat = config.chat_config(chat_id);
                group_status_text(&chat, chat_id, provider, model, context_usage)
            } else {
                let dm = config.dm_config(chat_id);
                dm_status_text(dm, chat_id, provider, model, context_usage)
            }
        },
        Command::Stop => to_owned("Stop command received."),
        _ => String::new(),
    }
}

/// [`handle_command_with_model`] with the configured model and provider.
pub fn handle_command(
    command: &Command,
    config: &mut Config,
    chat_id: &str,
    context_usage: &str,
) -> (r: String)
    ensures
        r@ == spec_handle_command(command@, *old(config), chat_id@, context_usage@, None, None),
        *final(config) == *old(config),
{
    handle_command_with_model(command, config, chat_id, context_usage, None, None)
}

/// Commands that may always be run, whatever the chat's settings.
pub open spec fn always_allowed(c: CommandView) -> bool {
    c is Todos || c is Tasks || c is Reminders || c is Stop
}

/// Whether `user_id` may run `command` in `chat_id`: always for the commands
/// of [`always_allowed`]; in a DM when its entry enables commands; in a group
/// when the user is on its command whitelist.
pub open spec fn spec_command_allowed(
    config: Config,
    chat_id: Seq<char>,
    user_id: Seq<char>,
    command: CommandView,
) -> bool {
    if always_allowed(command) {
        true
    } else if !is_group_id(chat_id) {
        config.dms@.dom().contains(chat_id) && config.dms@[chat_id].commands_enabled
    } else {
        let chat = match config.chat_entry(chat_id) {
            Some(c) => c,
            None => default_chat_view(),
        };
        chat.command_whitelist.len() > 0 && chat.command_whitelist.contains(user_id)
    }
}

/// Whether `user_id` may run `command` in `chat_id`.
pub fn command_allowed(config: &Config, chat_id: &str, user_id: &str, command: &Command) -> (r:
    bool)
    ensures
        r == spec_command_allowed(*config, chat_id@, user_id@, command@),
{
    match command {
        Command::Todos(_) | Command::Tasks | Command::Reminders | Command::Stop => true,
        _ => {
            if !is_group_chat(chat_id) {
                match config.dm_config(chat_id) {
                    Some(d) => d.commands_enabled,
                    None => false,
                }
            } else {
                let chat = config.chat_config(chat_id);
                can_run_command(&chat, user_id)
            }
        },
    }
}

/// A message parses as its trimmed text does, and one whose trimmed text
/// does not start with `/` holds no command.
pub proof fn lemma_parse_command_trims(text: Seq<char>)
    ensures
        spec_parse_command(trim_seq(text)) == spec_parse_command(text),
        !has_prefix(trim_seq(text), "/"@) ==> spec_parse_command(text) is None,
{
    crate::text::lemma_trim_idempotent(text);
}

/// A `/` word without spaces or `@`, not ending in whitespace, is its own
/// trim and holds no `@`.
proof fn lemma_command_word_plain(c: Seq<char>)
    requires
        c.len() > 0,
        c[0] == '/',
        forall|k: int| 0 <= k < c.len() ==> #[trigger] c[k] != ' ' && c[k] != '@',
        !is_ws(c.last()),
    ensures
        trim_seq(c) == c,
        split_once_seq(c, '@') is None,
        split_once_seq(c, ' ') is None,
{
    assert(trim_start(c) == c);
    assert(trim_end(c) == c);
    assert(!c.contains('@')) by {
        if c.contains('@') {
            let k = choose|k: int| 0 <= k < c.len() && c[k] == '@';
            assert(c[k] != '@');
        }
    }
    assert(!c.contains(' ')) by {
        if c.contains(' ') {
            let k = choose|k: int| 0 <= k < c.len() && c[k] == ' ';
            assert(c[k] != ' ');
        }
    }
}

/// `c@b` with its end trimmed: `c@` followed by `b` trimmed at the end;
/// it has no space, and its first `@` follows `c`.
proof fn lemma_with_bot_name(c: Seq<char>, bot: Seq<char>)
    requires
        c.len() > 0,
        c[0] == '/',
        forall|k: int| 0 <= k < c.len() ==> #[trigger] c[k] != ' ' && c[k] != '@',
        forall|k: int| 0 <= k < bot.len() ==> #[trigger] bot[k] != ' ',
    ensures
        trim_seq(c + "@"@ + bot) == c + "@"@ + trim_end(bot),
        split_once_seq(c + "@"@ + trim_end(bot), '@') matches Some((base, _)) && base == c,
        split_once_seq(c + "@"@ + trim_end(bot), ' ') is None,
{
    reveal_strlit("@");
    let at = c + "@"@;
    let x = at + bot;
    assert(c + "@"@ + bot == x);
    assert(trim_start(x) == x);
    assert(at.last() == '@');
    crate::text::lemma_trim_end_append(at, bot);
    crate::text::lemma_trim_end_prefix(bot);
    let y = at + trim_end(bot);
    assert(c + "@"@ + trim_end(bot) == y);
    let i = c.len() as int;
    assert(crate::text::is_first_index(y, '@', i)) by {
        assert forall|j: int| 0 <= j < i implies y[j] != '@' by {
            assert(y[j] == c[j]);
        }
    }
    crate::text::lemma_split_once_at(y, '@', i);
    assert(y.subrange(0, i) =~= c);
    assert(!y.contains(' ')) by {
        if y.contains(' ') {
            let k = choose|k: int| 0 <= k < y.len() && y[k] == ' ';
            if k < i {
                assert(y[k] == c[k]);
            } else if k > i {
                assert(y[k] == bot[k - i - 1]);
            }
        }
    }
}

/// A `@botname` suffix on the command word changes nothing: `/cmd@bot rest`
/// parses as `/cmd rest`, for a command word without spaces or `@` that does
/// not end in whitespace, and a bot name without spaces.
pub proof fn lemma_parse_command_ignores_bot_name(c: Seq<char>, bot: Seq<char>, rest: Seq<char>)
    requires
        c.len() > 0,
        c[0] == '/',
        forall|k: int| 0 <= k < c.len() ==> #[trigger] c[k] != ' ' && c[k] != '@',
        !is_ws(c.last()),
        forall|k: int| 0 <= k < bot.len() ==> #[trigger] bot[k] != ' ',
        rest.len() == 0 || rest[0] == ' ',
    ensures
        spec_parse_command(c + "@"@ + bot + rest) == spec_parse_command(c + rest),
{
    reveal_strlit("@");
    reveal_strlit("/");
    let x = c + "@"@ + bot;
    let t1s = x + rest;
    let t2s = c + rest;
    assert(c + "@"@ + bot + rest == t1s);
    assert(trim_start(t1s) == t1s);
    assert(trim_start(t2s) == t2s);
    let rr = trim_end(rest);
    crate::text::lemma_trim_end_prefix(rest);
    crate::text::lemma_trim_end_concat(x, rest);
    crate::text::lemma_trim_end_concat(c, rest);
    lemma_command_word_plain(c);
    lemma_with_bot_name(c, bot);
    let y = c + "@"@ + trim_end(bot);
    let t1 = trim_seq(t1s);
    let t2 = trim_seq(t2s);
    assert(t1.subrange(0, 1) =~= "/"@) by {
        assert(t1[0] == c[0]);
    }
    assert(t2.subrange(0, 1) =~= "/"@) by {
        assert(t2[0] == c[0]);
    }
    if rr.len() > 0 {
        assert(rr[0] == ' ');
        assert(t1 == x + rr);
        assert(t2 == c + rr);
        let i1 = x.len() as int;
        assert(crate::text::is_first_index(t1, ' ', i1)) by {
            assert forall|j: int| 0 <= j < i1 implies t1[j] != ' ' by {
                if j < c.len() {
                    assert(t1[j] == c[j]);
                } else if j > c.len() {
                    assert(t1[j] == bot[j - c.len() - 1]);
                }
            }
        }
        crate::text::lemma_split_once_at(t1, ' ', i1);
        assert(t1.subrange(0, i1) =~= x);
        assert(t1.subrange(i1 + 1, t1.len() as int) =~= rr.subrange(1, rr.len() as int));
        let i2 = c.len() as int;
        assert(crate::text::is_first_index(t2, ' ', i2)) by {
            assert forall|j: int| 0 <= j < i2 implies t2[j] != ' ' by {
                assert(t2[j] == c[j]);
            }
        }
        crate::text::lemma_split_once_at(t2, ' ', i2);
        assert(t2.subrange(0, i2) =~= c);
        assert(t2.subrange(i2 + 1, t2.len() as int) =~= rr.subrange(1, rr.len() as int));
        assert(command_word(t1) == c);
        assert(command_word(t2) == c);
    } else {
        assert(t1 == trim_end(x));
        assert(trim_end(x) == y);
        assert(t2 == c);
        assert(command_word(t1) == c);
        assert(command_word(t2) == c);
    }
}

/// The header of `/status` has the line `Model: <model>`.
proof fn lemma_header_names_model(
    name: Option<Seq<char>>,
    chat_id: Seq<char>,
    provider: LlmProvider,
    model: Seq<char>,
    context_usage: Seq<char>,
    rest: Seq<char>,
)
    ensures
        crate::text::occurs_at(
            status_header(name, chat_id, provider, model, context_usage) + rest,
            "Model: "@ + model + "\n"@,
            (name_line(name) + "Chat ID: "@ + chat_id + "\nProvider: "@ + provider_name(provider)
                + "\n"@).len() as int,
        ),
{
    reveal_strlit("\nModel: ");
    reveal_strlit("Model: ");
    reveal_strlit("\n");
    reveal_strlit("\nContext usage: ");
    reveal_strlit("Context usage: ");
    let pre = name_line(name) + "Chat ID: "@ + chat_id + "\nProvider: "@ + provider_name(provider);
    let line = "Model: "@ + model + "\n"@;
    let all = status_header(name, chat_id, provider, model, context_usage) + rest;
    assert("\nModel: "@ =~= "\n"@ + "Model: "@);
    assert("\nContext usage: "@ =~= "\n"@ + "Context usage: "@);
    assert(all =~= (pre + "\n"@) + line + ("Context usage: "@ + context_usage + rest));
    let i = (pre + "\n"@).len() as int;
    assert(all.subrange(i, i + line.len()) =~= line);
}

/// The header line `Model: <model>` occurs in the `/status` reply of a group.
proof fn lemma_group_status_names_model(
    chat: ChatConfigView,
    chat_id: Seq<char>,
    provider: LlmProvider,
    model: Seq<char>,
    context_usage: Seq<char>,
)
    ensures
        exists|i: int|
            crate::text::occurs_at(
                group_status(chat, chat_id, provider, model, context_usage),
                "Model: "@ + model + "\n"@,
                i,
            ),
{
    let rest = "\nInteraction mode: "@ + mode_name(chat.interaction_mode)
        + "\nInteraction whitelist: "@ + whitelist_text(chat.interaction_whitelist, "everyone"@)
        + "\nCommand whitelist: "@ + whitelist_text(chat.command_whitelist, "nobody"@);
    lemma_header_names_model(chat.name, chat_id, provider, model, context_usage, rest);
    assert(group_status(chat, chat_id, provider, model, context_usage) =~= status_header(
        chat.name,
        chat_id,
        provider,
        model,
        context_usage,
    ) + rest);
}

/// The header line `Model: <model>` occurs in the `/status` reply of a DM.
proof fn lemma_dm_status_names_model(
    dm: Option<crate::config::DmConfigView>,
    chat_id: Seq<char>,
    provider: LlmProvider,
    model: Seq<char>,
    context_usage: Seq<char>,
)
    ensures
        exists|i: int|
            crate::text::occurs_at(
                dm_status(dm, chat_id, provider, model, context_usage),
                "Model: "@ + model + "\n"@,
                i,
            ),
{
    let name = match dm {
        Some(d) => d.name,
        None => None,
    };
    let commands = match dm {
        Some(d) => if d.commands_enabled {
            "enabled"@
        } else {
            "disabled"@
        },
        None => "disabled (no DM config)"@,
    };
    let prompt = match dm {
        Some(d) => if d.system_prompt.len() == 0 {
            "not set"@
        } else {
            "set ("@ + decimal(d.system_prompt.len()) + " chars)"@
        },
        None => "not set (no DM config)"@,
    };
    let rest = "\nDM commands: "@ + commands + "\nDM system prompt: "@ + prompt;
    lemma_header_names_model(name, chat_id, provider, model, context_usage, rest);
    assert(dm_status(dm, chat_id, provider, model, context_usage) =~= status_header(
        name,
        chat_id,
        provider,
        model,
        context_usage,
    ) + rest);
}

/// `/status` names the model in use on a line of its own, whatever the
/// configuration says; every command other than `/status` and `/stop` has
/// no reply here.
pub proof fn lemma_status_names_model(
    command: CommandView,
    config: Config,
    chat_id: Seq<char>,
    context_usage: Seq<char>,
    model: Seq<char>,
    provider: Option<LlmProvider>,
)
    ensures
        command is Status ==> exists|i: int|
            crate::text::occurs_at(
                spec_handle_command(command, config, chat_id, context_usage, Some(model), provider),
                "Model: "@ + model + "\n"@,
                i,
            ),
        !(command is Status) && !(command is Stop) ==> spec_handle_command(
            command,
            config,
            chat_id,
            context_usage,
            Some(model),
            provider,
        ) == Seq::<char>::empty(),
{
    if command is Status {
        let p = match provider {
            Some(p) => p,
            None => config.spec_provider_for_chat(chat_id),
        };
        let r = spec_handle_command(command, config, chat_id, context_usage, Some(model), provider);
        let line = "Model: "@ + model + "\n"@;
        if is_group_id(chat_id) {
            let chat = match config.chat_entry(chat_id) {
                Some(c) => c,
                None => default_chat_view(),
            };
            lemma_group_status_names_model(chat, chat_id, p, model, context_usage);
            assert(r == group_status(chat, chat_id, p, model, context_usage));
            let i = choose|i: int|
                crate::text::occurs_at(group_status(chat, chat_id, p, model, context_usage), line, i);
            assert(crate::text::occurs_at(r, line, i));
        } else {
            let dm = if config.dms@.dom().contains(chat_id) {
                Some(config.dms@[chat_id]@)
            } else {
                None
            };
            lemma_dm_status_names_model(dm, chat_id, p, model, context_usage);
            assert(r == dm_status(dm, chat_id, p, model, context_usage));
            let i = choose|i: int|
                crate::text::occurs_at(dm_status(dm, chat_id, p, model, context_usage), line, i);
            assert(crate::text::occurs_at(r, line, i));
        }
    }
}

/// Where an incoming message goes.
#[derive(Debug, Clone, PartialEq, Eq)]
pub enum MessageRoute {
    /// It is a bot command.
    Command(Command),
    /// It is left unanswered.
    Ignore,
    /// It is answered with this text and goes no further.
    Reply(String),
    /// It goes to the model.
    Pipeline,
}

/// `text` mentions the bot `bot_username` (`@<bot_username>` occurs in it).
pub open spec fn mentions(text: Seq<char>, bot_username: Seq<char>) -> bool {
    exists|i: int| crate::text::occurs_at(text, "@"@ + bot_username, i)
}

/// Where a message `text` from `user_id` in `chat_id` goes:
/// - a bot command goes to the command handler;
/// - in a group, a user off the interaction whitelist is ignored, and so is
///   a message that neither looks like a command nor mentions the bot when
///   the chat only answers mentions;
/// - a message that looks like a command but does not mention the bot is
///   ignored;
/// - a DM without an entry in the configuration is told to ask the owner;
/// - anything else goes to the model.
pub open spec fn route_matches(
    r: MessageRoute,
    config: Config,
    chat_id: Seq<char>,
    user_id: Seq<char>,
    text: Seq<char>,
    bot_username: Seq<char>,
) -> bool {
    let looks_like_command = has_prefix(trim_seq(text), "/"@);
    let mention = mentions(text, bot_username);
    let chat = match config.chat_entry(chat_id) {
        Some(c) => c,
        None => default_chat_view(),
    };
    let group = is_group_id(chat_id);
    match spec_parse_command(text) {
        Some(c) => r matches MessageRoute::Command(cmd) && cmd@ == c,
        None => if group && !(chat.interaction_whitelist.len() == 0
            || chat.interaction_whitelist.contains(user_id)) {
            r is Ignore
        } else if group && chat.interaction_mode == InteractionMode::MentionOnly
            && !looks_like_command && !mention {
            r is Ignore
        } else if looks_like_command && !mention {
            r is Ignore
        } else if !group && !config.dms@.dom().contains(chat_id) {
            r matches MessageRoute::Reply(t) && t@
                == "I don't know you yet. Please ask the bot owner to add your user ID (`"@
                + user_id + "`) to the `dms` section in the config."@
        } else {
            r is Pipeline
        },
    }
}

/// Where a message `text` from `user_id` in `chat_id` goes.
pub fn route_message(
    config: &Config,
    chat_id: &str,
    user_id: &str,
    text: &str,
    bot_username: &str,
) -> (r: MessageRoute)
    ensures
        route_matches(r, *config, chat_id@, user_id@, text@, bot_username@),
{
    if let Some(c) = parse_command(text) {
        return MessageRoute::Command(c);
    }
    let looks_like_command = starts_with(trim(text), "/");
    let mut at = to_owned("@");
    push_str(&mut at, bot_username);
    let mention = match crate::text::find_str(text, at.as_str()) {
        Some(_) => true,
        None => false,
    };
    let group = is_group_chat(chat_id);
    if group {
        let chat = config.chat_config(chat_id);
        if !can_interact(&chat, user_id) {
            return MessageRoute::Ignore;
        }
        if chat.interaction_mode == InteractionMode::MentionOnly && !looks_like_command && !mention {
            return MessageRoute::Ignore;
        }
    }
    if looks_like_command && !mention {
        return MessageRoute::Ignore;
    }
    if !group && config.dm_config(chat_id).is_none() {
        let mut t = to_owned(
            "I don't know you yet. Please ask the bot owner to add your user ID (`",
        );
        push_str(&mut t, user_id);
        push_str(&mut t, "`) to the `dms` section in the config.");
        return MessageRoute::Reply(t);
    }
    MessageRoute::Pipeline
}

/// In a group, the model never answers a user who is off the chat's
/// interaction whitelist, nor a message that only looks like a command.
pub proof fn lemma_group_gate(
    r: MessageRoute,
    config: Config,
    chat_id: Seq<char>,
    user_id: Seq<char>,
    text: Seq<char>,
    bot_username: Seq<char>,
)
    requires
        route_matches(r, config, chat_id, user_id, text, bot_username),
        r is Pipeline,
    ensures
        spec_parse_command(text) is None,
        is_group_id(chat_id) ==> {
            let chat = match config.chat_entry(chat_id) {
                Some(c) => c,
                None => default_chat_view(),
            };
            chat.interaction_whitelist.len() == 0 || chat.interaction_whitelist.contains(user_id)
        },
        has_prefix(trim_seq(text), "/"@) ==> mentions(text, bot_username),
        !is_group_id(chat_id) ==> config.dms@.dom().contains(chat_id),
{
}

/// In a group, `/status` ends by naming who may talk to the bot (everyone
/// when its interaction whitelist is empty) and then who may run commands
/// (nobody when its command whitelist is empty), each from its own list.
pub proof fn lemma_group_status_whitelists(
    config: Config,
    chat_id: Seq<char>,
    context_usage: Seq<char>,
    model: Option<Seq<char>>,
    provider: Option<LlmProvider>,
)
    requires
        is_group_id(chat_id),
    ensures
        has_suffix(
            spec_handle_command(CommandView::Status, config, chat_id, context_usage, model, provider),
            "Interaction whitelist: "@ + (if match config.chat_entry(chat_id) {
                Some(c) => c,
                None => default_chat_view(),
            }.interaction_whitelist.len() == 0 {
                "everyone"@
            } else {
                join_seq(
                    match config.chat_entry(chat_id) {
                        Some(c) => c,
                        None => default_chat_view(),
                    }.interaction_whitelist,
                    ", "@,
                )
            }) + "\nCommand whitelist: "@ + (if match config.chat_entry(chat_id) {
                Some(c) => c,
                None => default_chat_view(),
            }.command_whitelist.len() == 0 {
                "nobody"@
            } else {
                join_seq(
                    match config.chat_entry(chat_id) {
                        Some(c) => c,
                        None => default_chat_view(),
                    }.command_whitelist,
                    ", "@,
                )
            }),
        ),
{
    reveal_strlit("\nInteraction whitelist: ");
    reveal_strlit("Interaction whitelist: ");
    reveal_strlit("\n");
    let chat = match config.chat_entry(chat_id) {
        Some(c) => c,
        None => default_chat_view(),
    };
    let talkers = if chat.interaction_whitelist.len() == 0 {
        "everyone"@
    } else {
        join_seq(chat.interaction_whitelist, ", "@)
    };
    let runners = if chat.command_whitelist.len() == 0 {
        "nobody"@
    } else {
        join_seq(chat.command_whitelist, ", "@)
    };
    let tail = "Interaction whitelist: "@ + talkers + "\nCommand whitelist: "@ + runners;
    let m = match model {
        Some(m) => m,
        None => config.spec_model_for_chat(chat_id),
    };
    let p = match provider {
        Some(p) => p,
        None => config.spec_provider_for_chat(chat_id),
    };
    let r = spec_handle_command(CommandView::Status, config, chat_id, context_usage, model, provider);
    assert(r == group_status(chat, chat_id, p, m, context_usage));
    let front = status_header(chat.name, chat_id, p, m, context_usage) + "\nInteraction mode: "@
        + mode_name(chat.interaction_mode) + "\n"@;
    assert("\nInteraction whitelist: "@ =~= "\n"@ + "Interaction whitelist: "@);
    assert(r =~= front + tail);
    assert(r.subrange(r.len() - tail.len(), r.len() as int) =~= tail);
}

/// In a DM, `/status` ends by saying whether the DM may run commands and
/// whether it has a system prompt of its own (with its length in
/// characters), or that the DM has no entry.
pub proof fn lemma_dm_status_settings(
    config: Config,
    chat_id: Seq<char>,
    context_usage: Seq<char>,
    model: Option<Seq<char>>,
    provider: Option<LlmProvider>,
)
    requires
        !is_group_id(chat_id),
    ensures
        has_suffix(
            spec_handle_command(CommandView::Status, config, chat_id, context_usage, model, provider),
            "DM commands: "@ + (if !config.dms@.dom().contains(chat_id) {
                "disabled (no DM config)"@
            } else if config.dms@[chat_id].commands_enabled {
                "enabled"@
            } else {
                "disabled"@
            }) + "\nDM system prompt: "@ + (if !config.dms@.dom().contains(chat_id) {
                "not set (no DM config)"@
            } else if config.dms@[chat_id].system_prompt@.len() == 0 {
                "not set"@
            } else {
                "set ("@ + decimal(config.dms@[chat_id].system_prompt@.len()) + " chars)"@
            }),
        ),
{
    reveal_strlit("\nDM commands: ");
    reveal_strlit("DM commands: ");
    reveal_strlit("\n");
    let dm = if config.dms@.dom().contains(chat_id) {
        Some(config.dms@[chat_id]@)
    } else {
        None
    };
    let m = match model {
        Some(m) => m,
        None => config.spec_model_for_chat(chat_id),
    };
    let p = match provider {
        Some(p) => p,
        None => config.spec_provider_for_chat(chat_id),
    };
    let r = spec_handle_command(CommandView::Status, config, chat_id, context_usage, model, provider);
    assert(r == dm_status(dm, chat_id, p, m, context_usage));
    let name = match dm {
        Some(d) => d.name,
        None => None,
    };
    let commands = if !config.dms@.dom().contains(chat_id) {
        "disabled (no DM config)"@
    } else if config.dms@[chat_id].commands_enabled {
        "enabled"@
    } else {
        "disabled"@
    };
    let prompt = if !config.dms@.dom().contains(chat_id) {
        "not set (no DM config)"@
    } else if config.dms@[chat_id].system_prompt@.len() == 0 {
        "not set"@
    } else {
        "set ("@ + decimal(config.dms@[chat_id].system_prompt@.len()) + " chars)"@
    };
    let tail = "DM commands: "@ + commands + "\nDM system prompt: "@ + prompt;
    assert("\nDM commands: "@ =~= "\n"@ + "DM commands: "@);
    assert(r =~= status_header(name, chat_id, p, m, context_usage) + "\n"@ + tail);
    assert(r.subrange(r.len() - tail.len(), r.len() as int) =~= tail);
}

proof fn lemma_status_header_text(
    name: Option<Seq<char>>,
    chat_id: Seq<char>,
    p: LlmProvider,
    m: Seq<char>,
    context_usage: Seq<char>,
)
    ensures
        status_header(name, chat_id, p, m, context_usage) + "\n"@ == match name {
            Some(n) => "Name: "@ + n + "\n"@,
            None => Seq::<char>::empty(),
        } + "Chat ID: "@ + chat_id + "\nProvider: "@ + match p {
            LlmProvider::Openrouter => "openrouter"@,
            LlmProvider::Codex => "codex"@,
        } + "\nModel: "@ + m + "\nContext usage: "@ + context_usage + "\n"@,
{
}

proof fn lemma_group_status_prefix(
    chat: ChatConfigView,
    chat_id: Seq<char>,
    p: LlmProvider,
    m: Seq<char>,
    context_usage: Seq<char>,
)
    ensures
        has_prefix(
            group_status(chat, chat_id, p, m, context_usage),
            status_header(chat.name, chat_id, p, m, context_usage) + "\n"@,
        ),
        has_prefix(
            group_status(chat, chat_id, p, m, context_usage),
            status_header(chat.name, chat_id, p, m, context_usage) + "\n"@ + "Interaction mode: "@
                + mode_name(chat.interaction_mode) + "\n"@,
        ),
{
    reveal_strlit("\n");
    reveal_strlit("\nInteraction mode: ");
    reveal_strlit("Interaction mode: ");
    reveal_strlit("\nInteraction whitelist: ");
    reveal_strlit("Interaction whitelist: ");
    let head = status_header(chat.name, chat_id, p, m, context_usage) + "\n"@;
    let more = head + "Interaction mode: "@ + mode_name(chat.interaction_mode) + "\n"@;
    let rest = "Interaction whitelist: "@ + whitelist_text(chat.interaction_whitelist, "everyone"@)
        + "\nCommand whitelist: "@ + whitelist_text(chat.command_whitelist, "nobody"@);
    let r = group_status(chat, chat_id, p, m, context_usage);
    assert("\nInteraction mode: "@ =~= "\n"@ + "Interaction mode: "@);
    assert("\nInteraction whitelist: "@ =~= "\n"@ + "Interaction whitelist: "@);
    assert(r =~= more + rest);
    assert(r.subrange(0, more.len() as int) =~= more);
    assert(r.subrange(0, head.len() as int) =~= head);
}

proof fn lemma_dm_status_prefix(
    dm: Option<crate::config::DmConfigView>,
    chat_id: Seq<char>,
    p: LlmProvider,
    m: Seq<char>,
    context_usage: Seq<char>,
)
    ensures
        has_prefix(
            dm_status(dm, chat_id, p, m, context_usage),
            status_header(
                match dm {
                    Some(d) => d.name,
                    None => None,
                },
                chat_id,
                p,
                m,
                context_usage,
            ) + "\n"@,
        ),
{
    reveal_strlit("\n");
    reveal_strlit("\nDM commands: ");
    reveal_strlit("DM commands: ");
    let name = match dm {
        Some(d) => d.name,
        None => None,
    };
    let head = status_header(name, chat_id, p, m, context_usage) + "\n"@;
    let r = dm_status(dm, chat_id, p, m, context_usage);
    assert("\nDM commands: "@ =~= "\n"@ + "DM commands: "@);
    assert(r.subrange(0, head.len() as int) =~= head);
}

/// Every `/status` reply opens with the chat's name (when it has one), its
/// ID, the provider and model in use and the context usage, one per line; a
/// group's reply goes on with its interaction mode.
pub proof fn lemma_status_header_lines(
    config: Config,
    chat_id: Seq<char>,
    context_usage: Seq<char>,
    model: Option<Seq<char>>,
    provider: Option<LlmProvider>,
)
    ensures
        ({
            let r = spec_handle_command(CommandView::Status, config, chat_id, context_usage, model, provider);
            let m = match model {
                Some(m) => m,
                None => config.spec_model_for_chat(chat_id),
            };
            let p = match provider {
                Some(p) => p,
                None => config.spec_provider_for_chat(chat_id),
            };
            let chat = match config.chat_entry(chat_id) {
                Some(c) => c,
                None => default_chat_view(),
            };
            let name = if is_group_id(chat_id) {
                chat.name
            } else if config.dms@.dom().contains(chat_id) {
                config.dms@[chat_id]@.name
            } else {
                None
            };
            let header = match name {
                Some(n) => "Name: "@ + n + "\n"@,
                None => Seq::<char>::empty(),
            } + "Chat ID: "@ + chat_id + "\nProvider: "@ + match p {
                LlmProvider::Openrouter => "openrouter"@,
                LlmProvider::Codex => "codex"@,
            } + "\nModel: "@ + m + "\nContext usage: "@ + context_usage + "\n"@;
            &&& has_prefix(r, header)
            &&& is_group_id(chat_id) ==> has_prefix(
                r,
                header + "Interaction mode: "@ + match chat.interaction_mode {
                    InteractionMode::EveryMessage => "EveryMessage"@,
                    InteractionMode::MentionOnly => "MentionOnly"@,
                } + "\n"@,
            )
        }),
{
    let r = spec_handle_command(CommandView::Status, config, chat_id, context_usage, model, provider);
    let m = match model {
        Some(m) => m,
        None => config.spec_model_for_chat(chat_id),
    };
    let p = match provider {
        Some(p) => p,
        None => config.spec_provider_for_chat(chat_id),
    };
    let chat = match config.chat_entry(chat_id) {
        Some(c) => c,
        None => default_chat_view(),
    };
    let dm = if config.dms@.dom().contains(chat_id) {
        Some(config.dms@[chat_id]@)
    } else {
        None
    };
    if is_group_id(chat_id) {
        lemma_status_header_text(chat.name, chat_id, p, m, context_usage);
        lemma_group_status_prefix(chat, chat_id, p, m, context_usage);
        assert(r == group_status(chat, chat_id, p, m, context_usage));
    } else {
        let name = match dm {
            Some(d) => d.name,
            None => None,
        };
        lemma_status_header_text(name, chat_id, p, m, context_usage);
        lemma_dm_status_prefix(dm, chat_id, p, m, context_usage);
        assert(r == dm_status(dm, chat_id, p, m, context_usage));
    }
}

/// How a bot command begins.
#[derive(Debug, Clone, PartialEq, Eq)]
pub enum CommandStart {
    /// The user may not run it: answer with this text.
    Refuse(String),
    /// `/stop`: raise the chat's stop signal and answer with this text.
    Stop(String),
    /// Go on with the command.
    Proceed,
}

/// How `command` from `user_id` in `chat_id` begins: refused when the user
/// may not run it, the stop signal for `/stop`, else on with the command.
pub open spec fn command_start_matches(
    r: CommandStart,
    config: Config,
    chat_id: Seq<char>,
    user_id: Seq<char>,
    command: CommandView,
) -> bool {
    if !spec_command_allowed(config, chat_id, user_id, command) {
        r matches CommandStart::Refuse(t) && t@ == "You are not authorized to run bot commands."@
    } else if command is Stop {
        r matches CommandStart::Stop(t) && t@
            == "Stop signal sent. Current operations will be cancelled."@
    } else {
        r is Proceed
    }
}

/// How `command` from `user_id` in `chat_id` begins.
pub fn command_start(config: &Config, chat_id: &str, user_id: &str, command: &Command) -> (r:
    CommandStart)
    ensures
        command_start_matches(r, *config, chat_id@, user_id@, command@),
{
    if !command_allowed(config, chat_id, user_id, command) {
        return CommandStart::Refuse(to_owned("You are not authorized to run bot commands."));
    }
    if let Command::Stop = command {
        return CommandStart::Stop(
            to_owned("Stop signal sent. Current operations will be cancelled."),
        );
    }
    CommandStart::Proceed
}

/// The reply to `/model` without an argument when no menu can be shown:
/// the model in use (marked when overridden) and the configured default.
pub open spec fn spec_model_info_text(current: Seq<char>, has_override: bool, default: Seq<char>) -> Seq<
    char,
> {
    "🎯 Current model: `"@ + current + "`"@ + (if has_override {
        " (override)"@
    } else {
        Seq::empty()
    }) + "\n📌 Config default: `"@ + default
        + "`\n\nSet model: `/model <model-id>`\nSwitch routing: `/model :nitro` | `:floor` | `:free`"@
}

/// The reply to `/model` without an argument when no menu can be shown.
pub fn model_info_text(current: &str, has_override: bool, default: &str) -> (r: String)
    ensures
        r@ == spec_model_info_text(current@, has_override, default@),
{
    let mut out = to_owned("🎯 Current model: `");
    push_str(&mut out, current);
    push_str(&mut out, "`");
    if has_override {
        push_str(&mut out, " (override)");
    }
    push_str(&mut out, "\n📌 Config default: `");
    push_str(&mut out, default);
    push_str(
        &mut out,
        "`\n\nSet model: `/model <model-id>`\nSwitch routing: `/model :nitro` | `:floor` | `:free`",
    );
    out
}

/// The reply to `/model <model-id>`.
pub fn model_set_text(model: &str) -> (r: String)
    ensures
        r@ == "✅ Model set to `"@ + model@ + "`"@,
{
    let mut out = to_owned("✅ Model set to `");
    push_str(&mut out, model);
    push_str(&mut out, "`");
    out
}

/// The reply to `/model_default`, naming the configured model now in use.
pub fn model_reset_text(model: &str) -> (r: String)
    ensures
        r@ == "🔁 Model reset to config default: `"@ + model@ + "`"@,
{
    let mut out = to_owned("🔁 Model reset to config default: `");
    push_str(&mut out, model);
    push_str(&mut out, "`");
    out
}

} // verus!
