//! What a chat has changed for itself until `/model_default` or a restart:
//! the model and provider picked by `/model` or the model picker, and the
//! browse page the picker's Back button returns to.

use vstd::prelude::*;
use crate::config::{Config, LlmProvider};
use crate::strmap::StrMap;
use crate::text::to_owned;

verus! {

/// The overrides of every chat.
pub struct ChatOverrides {
    models: StrMap<String>,
    providers: StrMap<LlmProvider>,
    browse: StrMap<String>,
}

/// The values of [`ChatOverrides`], by chat ID.
pub struct OverridesView {
    pub models: Map<Seq<char>, Seq<char>>,
    pub providers: Map<Seq<char>, LlmProvider>,
    pub browse: Map<Seq<char>, Seq<char>>,
}

impl View for ChatOverrides {
    type V = OverridesView;

    closed spec fn view(&self) -> OverridesView {
        OverridesView {
            models: self.models@.map_values(|s: String| s@),
            providers: self.providers@,
            browse: self.browse@.map_values(|s: String| s@),
        }
    }
}

/// The provider a chat uses: its override, else the configured one.
pub open spec fn spec_effective_provider(o: OverridesView, config: Config, chat_id: Seq<char>) -> LlmProvider {
    if o.providers.dom().contains(chat_id) {
        o.providers[chat_id]
    } else {
        config.spec_provider_for_chat(chat_id)
    }
}

/// The model a chat uses: its override; else the default model of its
/// overriding provider; else the configured one.
pub open spec fn spec_effective_model(o: OverridesView, config: Config, chat_id: Seq<char>) -> Seq<char> {
    if o.models.dom().contains(chat_id) {
        o.models[chat_id]
    } else if o.providers.dom().contains(chat_id) {
        config.spec_default_model_for_provider(o.providers[chat_id])
    } else {
        config.spec_model_for_chat(chat_id)
    }
}

impl ChatOverrides {
    /// No chat has overridden anything.
    pub fn new() -> (r: ChatOverrides)
        ensures
            r@.models == Map::<Seq<char>, Seq<char>>::empty(),
            r@.providers == Map::<Seq<char>, LlmProvider>::empty(),
            r@.browse == Map::<Seq<char>, Seq<char>>::empty(),
    {
        let r = ChatOverrides { models: StrMap::new(), providers: StrMap::new(), browse: StrMap::new() };
        assert(r@.models =~= Map::<Seq<char>, Seq<char>>::empty());
        assert(r@.browse =~= Map::<Seq<char>, Seq<char>>::empty());
        r
    }

    /// The provider `chat_id` uses.
    pub fn effective_provider(&self, config: &Config, chat_id: &str) -> (r: LlmProvider)
        ensures
            r == spec_effective_provider(self@, *config, chat_id@),
    {
        match self.providers.get(chat_id) {
            Some(p) => *p,
            None => config.provider_for_chat(chat_id),
        }
    }

    /// The model `chat_id` uses.
    pub fn effective_model(&self, config: &Config, chat_id: &str) -> (r: String)
        ensures
            r@ == spec_effective_model(self@, *config, chat_id@),
    {
        if let Some(m) = self.models.get(chat_id) {
            return to_owned(m.as_str());
        }
        match self.providers.get(chat_id) {
            Some(p) => to_owned(config.default_model_for_provider(*p)),
            None => to_owned(config.model_for_chat(chat_id)),
        }
    }

    /// Whether `chat_id` has picked a model of its own.
    pub fn has_model_override(&self, chat_id: &str) -> (r: bool)
        ensures
            r == self@.models.dom().contains(chat_id@),
    {
        self.models.contains_key(chat_id)
    }

    /// `chat_id` uses `model` from now on.
    pub fn set_model(&mut self, chat_id: &str, model: String)
        ensures
            final(self)@.models == old(self)@.models.insert(chat_id@, model@),
            final(self)@.providers == old(self)@.providers,
            final(self)@.browse == old(self)@.browse,
    {
        let ghost m = model@;
        self.models.insert(to_owned(chat_id), model);
        assert(self@.models =~= old(self)@.models.insert(chat_id@, m));
    }

    /// `chat_id` uses `provider` from now on.
    pub fn set_provider(&mut self, chat_id: &str, provider: LlmProvider)
        ensures
            final(self)@.models == old(self)@.models,
            final(self)@.providers == old(self)@.providers.insert(chat_id@, provider),
            final(self)@.browse == old(self)@.browse,
    {
        self.providers.insert(to_owned(chat_id), provider);
    }

    /// `/model_default`: `chat_id` goes back to its configured model and
    /// provider.
    pub fn reset(&mut self, chat_id: &str)
        ensures
            final(self)@.models == old(self)@.models.remove(chat_id@),
            final(self)@.providers == old(self)@.providers.remove(chat_id@),
            final(self)@.browse == old(self)@.browse,
    {
        self.models.remove(chat_id);
        self.providers.remove(chat_id);
        assert(self@.models =~= old(self)@.models.remove(chat_id@));
    }

    /// Remember the browse page `data` that `chat_id` showed last.
    pub fn remember_browse(&mut self, chat_id: &str, data: String)
        ensures
            final(self)@.models == old(self)@.models,
            final(self)@.providers == old(self)@.providers,
            final(self)@.browse == old(self)@.browse.insert(chat_id@, data@),
    {
        let ghost d = data@;
        self.browse.insert(to_owned(chat_id), data);
        assert(self@.browse =~= old(self)@.browse.insert(chat_id@, d));
    }

    /// The browse page that Back returns `chat_id` to, if it showed one.
    pub fn back_target(&self, chat_id: &str) -> (r: Option<String>)
        ensures
            match r {
                Some(d) => self@.browse.dom().contains(chat_id@) && d@ == self@.browse[chat_id@],
                None => !self@.browse.dom().contains(chat_id@),
            },
    {
        match self.browse.get(chat_id) {
            Some(d) => Some(to_owned(d.as_str())),
            None => None,
        }
    }
}

/// `/model_default` puts a chat back on its configured model and provider,
/// and leaves every other chat as it was.
pub proof fn lemma_reset_restores_config(o: OverridesView, config: Config, chat_id: Seq<char>, other: Seq<char>)
    ensures
        spec_effective_model(
            OverridesView { models: o.models.remove(chat_id), providers: o.providers.remove(chat_id), ..o },
            config,
            chat_id,
        ) == config.spec_model_for_chat(chat_id),
        spec_effective_provider(
            OverridesView { models: o.models.remove(chat_id), providers: o.providers.remove(chat_id), ..o },
            config,
            chat_id,
        ) == config.spec_provider_for_chat(chat_id),
        other != chat_id ==> spec_effective_model(
            OverridesView { models: o.models.remove(chat_id), providers: o.providers.remove(chat_id), ..o },
            config,
            other,
        ) == spec_effective_model(o, config, other),
{
}

/// A model set for a chat is the model the chat uses, and no other chat's
/// model changes.
pub proof fn lemma_set_model_read_back(
    o: OverridesView,
    config: Config,
    chat_id: Seq<char>,
    model: Seq<char>,
    other: Seq<char>,
)
    ensures
        spec_effective_model(OverridesView { models: o.models.insert(chat_id, model), ..o }, config, chat_id)
            == model,
        other != chat_id ==> spec_effective_model(
            OverridesView { models: o.models.insert(chat_id, model), ..o },
            config,
            other,
        ) == spec_effective_model(o, config, other),
{
}

/// Back returns a chat to the browse page it remembered last.
pub proof fn lemma_back_returns_to_last_page(o: OverridesView, chat_id: Seq<char>, data: Seq<char>)
    ensures
        o.browse.insert(chat_id, data).dom().contains(chat_id),
        o.browse.insert(chat_id, data)[chat_id] == data,
{
}


/// The stop signal of each chat that has had work on a message.
pub struct StopSignals {
    flags: StrMap<bool>,
}

impl View for StopSignals {
    type V = Map<Seq<char>, bool>;

    closed spec fn view(&self) -> Map<Seq<char>, bool> {
        self.flags@
    }
}

/// Whether the work in `chat_id` has been told to stop.
pub open spec fn spec_is_stopped(signals: Map<Seq<char>, bool>, chat_id: Seq<char>) -> bool {
    signals.dom().contains(chat_id) && signals[chat_id]
}

impl StopSignals {
    /// No chat has a signal yet.
    pub fn new() -> (r: StopSignals)
        ensures
            r@ == Map::<Seq<char>, bool>::empty(),
    {
        StopSignals { flags: StrMap::new() }
    }

    /// Work on a message in `chat_id` begins: its signal is lowered.
    pub fn begin(&mut self, chat_id: &str)
        ensures
            final(self)@ == old(self)@.insert(chat_id@, false),
    {
        self.flags.insert(to_owned(chat_id), false);
    }

    /// `/stop` in `chat_id`: the signal is raised if the chat has one.
    pub fn request_stop(&mut self, chat_id: &str)
        ensures
            final(self)@ == if old(self)@.dom().contains(chat_id@) {
                old(self)@.insert(chat_id@, true)
            } else {
                old(self)@
            },
    {
        if self.flags.contains_key(chat_id) {
            self.flags.insert(to_owned(chat_id), true);
        }
    }

    /// Whether the work in `chat_id` has been told to stop.
    pub fn is_stopped(&self, chat_id: &str) -> (r: bool)
        ensures
            r == spec_is_stopped(self@, chat_id@),
    {
        match self.flags.get(chat_id) {
            Some(b) => *b,
            None => false,
        }
    }
}

/// A `/stop` after work began in a chat stops that work, and only there;
/// new work in the chat starts unstopped.
pub proof fn lemma_stop_reaches_running_work(signals: Map<Seq<char>, bool>, chat_id: Seq<char>, other: Seq<char>)
    ensures
        spec_is_stopped(signals.insert(chat_id, false).insert(chat_id, true), chat_id),
        !spec_is_stopped(signals.insert(chat_id, false), chat_id),
        other != chat_id ==> spec_is_stopped(signals.insert(chat_id, true), other) == spec_is_stopped(
            signals,
            other,
        ),
{
}
} // verus!
