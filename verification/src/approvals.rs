//! Proposed configuration and model changes that wait for the user to tap
//! "accept" or "deny", and what each tap leads to.

use vstd::prelude::*;
use crate::callbacks::{nth_piece, nth_piece_exec};
use crate::config::ostr;
use crate::models::Button;
use crate::text::{lemma_split_after, push_str, split_once_seq, str_eq, to_owned};

verus! {

/// A configuration change proposed by the assistant, awaiting approval.
#[derive(Debug, Clone)]
pub struct PendingConfigChange {
    pub chat_id: String,
    pub message_id: i32,
    pub new_yaml: String,
}

/// A model change proposed by the assistant, awaiting approval.
#[derive(Debug, Clone)]
pub struct PendingModelChange {
    pub chat_id: String,
    pub message_id: i32,
    pub proposed_model: String,
}

/// The pending ID and the action of a button tap `kind:<id>:<action>`.
pub open spec fn spec_parse_approval(data: Seq<char>, kind: Seq<char>) -> Option<
    (Seq<char>, Seq<char>),
> {
    if nth_piece(data, ':', 0) == Some(kind) && nth_piece(data, ':', 3) is None {
        match (nth_piece(data, ':', 1), nth_piece(data, ':', 2)) {
            (Some(id), Some(action)) => Some((id, action)),
            _ => None,
        }
    } else {
        None
    }
}

/// Read a button tap of the form `kind:<id>:<action>`: exactly three
/// `:`-separated pieces, the first of them `kind`.
pub fn parse_approval_callback(data: &str, kind: &str) -> (r: Option<(String, String)>)
    ensures
        match r {
            Some((id, action)) => spec_parse_approval(data@, kind@) == Some((id@, action@)),
            None => spec_parse_approval(data@, kind@) is None,
        },
{
    let first = nth_piece_exec(data, ':', 0);
    let fourth = nth_piece_exec(data, ':', 3);
    match (first, fourth) {
        (Some(k), None) => {
            if !str_eq(k, kind) {
                return None;
            }
            match (nth_piece_exec(data, ':', 1), nth_piece_exec(data, ':', 2)) {
                (Some(id), Some(action)) => Some((to_owned(id), to_owned(action))),
                _ => None,
            }
        },
        _ => None,
    }
}

/// The buttons of a proposal carry `kind:<id>:<action>`; reading such data
/// back gives the ID and the action, when none of the three holds a `:`.
pub proof fn lemma_approval_data_read_back(kind: Seq<char>, id: Seq<char>, action: Seq<char>)
    requires
        !kind.contains(':'),
        !id.contains(':'),
        !action.contains(':'),
    ensures
        spec_parse_approval(approval_data(kind, id, action), kind) == Some((id, action)),
{
    reveal_strlit(":");
    let tail = id + seq![':'] + action;
    let data = kind + ":"@ + id + ":"@ + action;
    assert(data =~= kind + seq![':'] + tail);
    lemma_split_after(kind, ':', tail);
    lemma_split_after(id, ':', action);
    assert(split_once_seq(action, ':') is None);
    assert(nth_piece(action, ':', 0) == Some(action));
    assert(nth_piece(action, ':', 1) is None);
    assert(nth_piece(tail, ':', 0) == Some(id));
    assert(nth_piece(tail, ':', 1) == Some(action));
    assert(nth_piece(tail, ':', 2) is None);
    assert(nth_piece(data, ':', 0) == Some(kind));
    assert(nth_piece(data, ':', 1) == Some(id));
    assert(nth_piece(data, ':', 2) == Some(action));
    assert(nth_piece(data, ':', 3) is None);
}

/// The data of the accept or deny button of a proposal.
pub open spec fn approval_data(kind: Seq<char>, pending_id: Seq<char>, action: Seq<char>) -> Seq<
    char,
> {
    kind + ":"@ + pending_id + ":"@ + action
}

fn button_data(kind: &str, pending_id: &str, action: &str) -> (r: String)
    ensures
        r@ == approval_data(kind@, pending_id@, action@),
{
    let mut r = to_owned(kind);
    push_str(&mut r, ":");
    push_str(&mut r, pending_id);
    push_str(&mut r, ":");
    push_str(&mut r, action);
    r
}

/// The accept and deny buttons of proposal `pending_id` (of kind `cfg` or
/// `mdl`).
pub fn approval_buttons(kind: &str, pending_id: &str) -> (r: Vec<Button>)
    ensures
        r@.len() == 2,
        r@[0].label@ == "✅ Accept"@,
        r@[0].data@ == approval_data(kind@, pending_id@, "accept"@),
        r@[1].label@ == "❌ Deny"@,
        r@[1].data@ == approval_data(kind@, pending_id@, "deny"@),
{
    let mut row: Vec<Button> = Vec::new();
    row.push(Button { label: to_owned("✅ Accept"), data: button_data(kind, pending_id, "accept") });
    row.push(Button { label: to_owned("❌ Deny"), data: button_data(kind, pending_id, "deny") });
    row
}

/// What a tap leads to once the pending change has been looked up (and
/// taken out, whatever the action).
#[derive(Clone, Copy, Debug, PartialEq, Eq, Structural)]
pub enum ApprovalStep {
    /// No such pending change: it expired or was already handled.
    Expired,
    Accept,
    Deny,
    /// An action other than `accept` or `deny`.
    Unknown,
}

/// The step for a tap with `action` on a change that was (or was not) found.
pub open spec fn spec_approval_step(found: bool, action: Seq<char>) -> ApprovalStep {
    if !found {
        ApprovalStep::Expired
    } else if action == "accept"@ {
        ApprovalStep::Accept
    } else if action == "deny"@ {
        ApprovalStep::Deny
    } else {
        ApprovalStep::Unknown
    }
}

/// The step for a tap with `action` on a change that was (or was not) found.
pub fn approval_step(found: bool, action: &str) -> (r: ApprovalStep)
    ensures
        r == spec_approval_step(found, action@),
{
    if !found {
        ApprovalStep::Expired
    } else if str_eq(action, "accept") {
        ApprovalStep::Accept
    } else if str_eq(action, "deny") {
        ApprovalStep::Deny
    } else {
        ApprovalStep::Unknown
    }
}

/// How applying an accepted configuration went.
pub enum ConfigApplyOutcome {
    Applied,
    /// The proposed YAML is not a valid configuration; the parser's message.
    Invalid(String),
    /// The configuration could not be written; the error's message.
    SaveFailed(String),
}

/// The edited message and the note for the assistant after a tap on a
/// configuration change; `outcome` counts for `Accept` only.
pub open spec fn spec_config_reply(step: ApprovalStep, outcome: ConfigApplyOutcome) -> (
    Seq<char>,
    Option<Seq<char>>,
) {
    match step {
        ApprovalStep::Expired => ("⚠️ This config change has expired or was already processed."@, None),
        ApprovalStep::Accept => match outcome {
            ConfigApplyOutcome::Applied => (
                "✅ *Config Change Applied*\n\nThe bot is restarting to pick up the new configuration."@,
                None,
            ),
            ConfigApplyOutcome::Invalid(e) => ("❌ Config validation failed: "@ + e@, None),
            ConfigApplyOutcome::SaveFailed(e) => ("❌ Failed to save config: "@ + e@, None),
        },
        ApprovalStep::Deny => (
            "❌ *Config Change Denied*\n\nWhat would you like to change instead? The bot will ask for your feedback on the next message."@,
            Some(
                "The user denied the proposed config change. On the next user message, ask what adjustments they'd like to make."@,
            ),
        ),
        ApprovalStep::Unknown => ("⚠️ Unknown action."@, None),
    }
}

/// The edited message and the note for the assistant after a tap on a
/// configuration change.
pub fn config_reply(step: ApprovalStep, outcome: &ConfigApplyOutcome) -> (r: (String, Option<String>))
    ensures
        (r.0@, ostr(r.1)) == spec_config_reply(step, *outcome),
{
    match step {
        ApprovalStep::Expired => (
            to_owned("⚠️ This config change has expired or was already processed."),
            None,
        ),
        ApprovalStep::Accept => match outcome {
            ConfigApplyOutcome::Applied => (
                to_owned(
                    "✅ *Config Change Applied*\n\nThe bot is restarting to pick up the new configuration.",
                ),
                None,
            ),
            ConfigApplyOutcome::Invalid(e) => {
                let mut t = to_owned("❌ Config validation failed: ");
                push_str(&mut t, e.as_str());
                (t, None)
            },
            ConfigApplyOutcome::SaveFailed(e) => {
                let mut t = to_owned("❌ Failed to save config: ");
                push_str(&mut t, e.as_str());
                (t, None)
            },
        },
        ApprovalStep::Deny => (
            to_owned(
                "❌ *Config Change Denied*\n\nWhat would you like to change instead? The bot will ask for your feedback on the next message.",
            ),
            Some(
                to_owned(
                    "The user denied the proposed config change. On the next user message, ask what adjustments they'd like to make.",
                ),
            ),
        ),
        ApprovalStep::Unknown => (to_owned("⚠️ Unknown action."), None),
    }
}

/// The note for the assistant after a tap on a model change to `model`.
pub open spec fn spec_model_followup(step: ApprovalStep, model: Seq<char>) -> Option<Seq<char>> {
    match step {
        ApprovalStep::Accept => Some("Model change accepted. Now using `"@ + model + "`."@),
        ApprovalStep::Deny => Some("Model change denied. The current model remains unchanged."@),
        _ => None,
    }
}

/// A tap applies a change only when the change is still pending and the
/// tapped action is `accept`; it is denied only on `deny`; a change that is
/// no longer pending is reported as expired whatever was tapped. Only a
/// denial leaves a note for the assistant about a configuration change, and
/// only an accepted one is reported as applied.
pub proof fn lemma_approval_outcomes(found: bool, action: Seq<char>, outcome: ConfigApplyOutcome, model: Seq<char>)
    ensures
        (spec_approval_step(found, action) == ApprovalStep::Accept) <==> found && action == "accept"@,
        (spec_approval_step(found, action) == ApprovalStep::Deny) <==> found && action == "deny"@,
        (spec_approval_step(found, action) == ApprovalStep::Expired) <==> !found,
        (spec_config_reply(spec_approval_step(found, action), outcome).1 is Some) <==> (found && action
            == "deny"@),
        (spec_config_reply(spec_approval_step(found, action), outcome).0
            == "✅ *Config Change Applied*\n\nThe bot is restarting to pick up the new configuration."@)
            ==> found && action == "accept"@ && outcome is Applied,
        (spec_model_followup(spec_approval_step(found, action), model) is Some) <==> found && (action
            == "accept"@ || action == "deny"@),
{
    reveal_strlit("accept");
    reveal_strlit("deny");
    reveal_strlit("✅ *Config Change Applied*\n\nThe bot is restarting to pick up the new configuration.");
    reveal_strlit("⚠️ This config change has expired or was already processed.");
    reveal_strlit("❌ *Config Change Denied*\n\nWhat would you like to change instead? The bot will ask for your feedback on the next message.");
    reveal_strlit("⚠️ Unknown action.");
    reveal_strlit("❌ Config validation failed: ");
    reveal_strlit("❌ Failed to save config: ");
    assert("accept"@.len() != "deny"@.len());
    let applied = "✅ *Config Change Applied*\n\nThe bot is restarting to pick up the new configuration."@;
    let step = spec_approval_step(found, action);
    let r = spec_config_reply(step, outcome);
    if r.0 == applied {
        assert(applied[0] == '✅');
        if step == ApprovalStep::Expired {
            assert("⚠️ This config change has expired or was already processed."@[0] != applied[0]);
        } else if step == ApprovalStep::Deny {
            assert("❌ *Config Change Denied*\n\nWhat would you like to change instead? The bot will ask for your feedback on the next message."@[0] != applied[0]);
        } else if step == ApprovalStep::Unknown {
            assert("⚠️ Unknown action."@[0] != applied[0]);
        } else {
            match outcome {
                ConfigApplyOutcome::Applied => {},
                ConfigApplyOutcome::Invalid(e) => {
                    assert(r.0[0] == "❌ Config validation failed: "@[0]);
                },
                ConfigApplyOutcome::SaveFailed(e) => {
                    assert(r.0[0] == "❌ Failed to save config: "@[0]);
                },
            }
        }
    }
}

/// The note for the assistant after a tap on a model change to `model`.
pub fn model_followup(step: ApprovalStep, model: &str) -> (r: Option<String>)
    ensures
        ostr(r) == spec_model_followup(step, model@),
{
    match step {
        ApprovalStep::Accept => {
            let mut t = to_owned("Model change accepted. Now using `");
            push_str(&mut t, model);
            push_str(&mut t, "`.");
            Some(t)
        },
        ApprovalStep::Deny => Some(
            to_owned("Model change denied. The current model remains unchanged."),
        ),
        _ => None,
    }
}

/// The edited message after a tap on a model change; `escaped_model` is the
/// proposed model escaped for MarkdownV2.
pub open spec fn spec_model_reply(step: ApprovalStep, escaped_model: Seq<char>) -> Seq<char> {
    match step {
        ApprovalStep::Expired => "⚠️ This model change proposal has expired or was already processed."@,
        ApprovalStep::Accept => "✅ *Model Changed*\n\nNow using: `"@ + escaped_model
            + "`\n\nUse `/model_default` to reset to the config default."@,
        ApprovalStep::Deny => "❌ *Model Change Denied*\n\nThe current model remains unchanged."@,
        ApprovalStep::Unknown => "⚠️ Unknown action."@,
    }
}

/// The edited message after a tap on a model change.
pub fn model_reply(step: ApprovalStep, escaped_model: &str) -> (r: String)
    ensures
        r@ == spec_model_reply(step, escaped_model@),
{
    match step {
        ApprovalStep::Expired => to_owned(
            "⚠️ This model change proposal has expired or was already processed.",
        ),
        ApprovalStep::Accept => {
            let mut t = to_owned("✅ *Model Changed*\n\nNow using: `");
            push_str(&mut t, escaped_model);
            push_str(&mut t, "`\n\nUse `/model_default` to reset to the config default.");
            t
        },
        ApprovalStep::Deny => to_owned("❌ *Model Change Denied*\n\nThe current model remains unchanged."),
        ApprovalStep::Unknown => to_owned("⚠️ Unknown action."),
    }
}


/// The proposals of one kind that wait for a tap, by pending ID.
pub struct PendingChanges<V> {
    items: crate::strmap::StrMap<V>,
}

impl<V> View for PendingChanges<V> {
    type V = Map<Seq<char>, V>;

    closed spec fn view(&self) -> Map<Seq<char>, V> {
        self.items@
    }
}

impl<V> PendingChanges<V> {
    /// Nothing waits.
    pub fn new() -> (r: Self)
        ensures
            r@ == Map::<Seq<char>, V>::empty(),
    {
        PendingChanges { items: crate::strmap::StrMap::new() }
    }

    /// `change` waits for a tap under `pending_id`.
    pub fn add(&mut self, pending_id: String, change: V)
        ensures
            final(self)@ == old(self)@.insert(pending_id@, change),
    {
        let _ = self.items.insert(pending_id, change);
    }

    /// Whether a change waits under `pending_id`.
    pub fn contains(&self, pending_id: &str) -> (r: bool)
        ensures
            r == self@.dom().contains(pending_id@),
    {
        self.items.contains_key(pending_id)
    }

    /// A tap with `action` on proposal `pending_id`: the change is taken
    /// out whatever the action, and the step says what follows.
    pub fn tap(&mut self, pending_id: &str, action: &str) -> (r: (ApprovalStep, Option<V>))
        ensures
            final(self)@ == old(self)@.remove(pending_id@),
            r.0 == spec_approval_step(old(self)@.dom().contains(pending_id@), action@),
            match r.1 {
                Some(v) => old(self)@.dom().contains(pending_id@) && v == old(self)@[pending_id@],
                None => !old(self)@.dom().contains(pending_id@),
            },
    {
        let change = self.items.take(pending_id);
        let step = approval_step(change.is_some(), action);
        (step, change)
    }
}

/// A proposal is handled once: after a tap on it, a second tap on the same
/// proposal finds it expired, whatever its action.
pub proof fn lemma_proposals_single_use<V>(pending: Map<Seq<char>, V>, pending_id: Seq<char>, action: Seq<char>)
    ensures
        spec_approval_step(pending.remove(pending_id).dom().contains(pending_id), action)
            == ApprovalStep::Expired,
{
}
} // verus!
