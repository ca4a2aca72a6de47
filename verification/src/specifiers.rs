//! OpenRouter routing specifiers (`:nitro`, `:floor`, `:free`): recognising
//! them at the end of a model ID, applying them to a model, and the checks
//! made before a model change.

use vstd::prelude::*;
use crate::config::ostr;
use crate::text::{has_prefix, push_str, rsplit_once, rsplit_once_seq, str_eq, to_owned};

verus! {

/// Whether `s` is one of the routing specifiers `nitro`, `floor` and `free`.
pub open spec fn is_specifier(s: Seq<char>) -> bool {
    s == "nitro"@ || s == "floor"@ || s == "free"@
}

/// Whether `s` names a routing specifier (without its colon).
pub fn is_valid_specifier(s: &str) -> (r: bool)
    ensures
        r == is_specifier(s@),
{
    str_eq(s, "nitro") || str_eq(s, "floor") || str_eq(s, "free")
}

/// A model ID split into its base and the specifier after its last colon,
/// when that part is a known specifier.
pub open spec fn spec_split_specifier(model: Seq<char>) -> (Seq<char>, Option<Seq<char>>) {
    match rsplit_once_seq(model, ':') {
        Some((base, tail)) => if is_specifier(tail) {
            (base, Some(tail))
        } else {
            (model, None)
        },
        None => (model, None),
    }
}

/// The base model and the applied specifier of `model`.
pub fn split_specifier(model: &str) -> (r: (String, Option<String>))
    ensures
        r.0@ == spec_split_specifier(model@).0,
        ostr(r.1) == spec_split_specifier(model@).1,
{
    match rsplit_once(model, ':') {
        Some((base, tail)) => {
            if is_valid_specifier(tail) {
                (to_owned(base), Some(to_owned(tail)))
            } else {
                (to_owned(model), None)
            }
        },
        None => (to_owned(model), None),
    }
}

/// `model` with `specifier` in place of the one it carries, if any.
pub open spec fn spec_apply_specifier(model: Seq<char>, specifier: Seq<char>) -> Seq<char> {
    spec_split_specifier(model).0 + ":"@ + specifier
}

/// Apply `specifier` to `model`, replacing a specifier already applied.
pub fn apply_specifier(model: &str, specifier: &str) -> (r: String)
    ensures
        r@ == spec_apply_specifier(model@, specifier@),
{
    let (base, _) = split_specifier(model);
    let mut out = base;
    push_str(&mut out, ":");
    push_str(&mut out, specifier);
    out
}

/// The error of the model-change tool for an unknown specifier.
pub open spec fn unknown_specifier_error(s: Seq<char>) -> Seq<char> {
    "Error: unknown specifier ':"@ + s + "'. Valid specifiers: :nitro, :floor, :free"@
}

/// The reply of the model-change tool when the proposal changes nothing.
pub open spec fn already_active_text(model: Seq<char>) -> Seq<char> {
    "The proposed model '"@ + model
        + "' is already the active model for this chat. No change needed."@
}

/// The model that the model-change tool proposes, from its `model_id` and
/// `specifier` arguments and the model now in use, or the tool's answer
/// when there is nothing to propose:
/// - neither argument: an error;
/// - an unknown specifier: an error;
/// - a model ID alone is proposed as it is; with a specifier, the specifier
///   is applied to it; a specifier alone is applied to the current model;
/// - a proposal equal to the current model: no change needed.
pub open spec fn spec_proposed_model(
    model_id: Option<Seq<char>>,
    specifier: Option<Seq<char>>,
    current: Seq<char>,
) -> Result<Seq<char>, Seq<char>> {
    if model_id is None && specifier is None {
        Err("Error: at least one of model_id or specifier is required."@)
    } else if specifier matches Some(s) && !is_specifier(s) {
        Err(unknown_specifier_error(specifier->0))
    } else {
        let proposed = match (model_id, specifier) {
            (Some(m), Some(s)) => spec_apply_specifier(m, s),
            (Some(m), None) => m,
            (None, Some(s)) => spec_apply_specifier(current, s),
            (None, None) => current,
        };
        if proposed == current {
            Err(already_active_text(proposed))
        } else {
            Ok(proposed)
        }
    }
}

/// The view of a string result.
pub open spec fn result_view(r: Result<String, String>) -> Result<Seq<char>, Seq<char>> {
    match r {
        Ok(s) => Ok(s@),
        Err(e) => Err(e@),
    }
}

/// The model that the model-change tool proposes, or its answer when there
/// is nothing to propose.
pub fn proposed_model(model_id: Option<&str>, specifier: Option<&str>, current: &str) -> (r: Result<
    String,
    String,
>)
    ensures
        result_view(r) == spec_proposed_model(
            match model_id {
                Some(m) => Some(m@),
                None => None,
            },
            match specifier {
                Some(s) => Some(s@),
                None => None,
            },
            current@,
        ),
{
    if model_id.is_none() && specifier.is_none() {
        return Err(to_owned("Error: at least one of model_id or specifier is required."));
    }
    if let Some(s) = specifier {
        if !is_valid_specifier(s) {
            let mut e = to_owned("Error: unknown specifier ':");
            push_str(&mut e, s);
            push_str(&mut e, "'. Valid specifiers: :nitro, :floor, :free");
            return Err(e);
        }
    }
    let proposed = match (model_id, specifier) {
        (Some(m), Some(s)) => apply_specifier(m, s),
        (Some(m), None) => to_owned(m),
        (None, Some(s)) => apply_specifier(current, s),
        (None, None) => to_owned(current),
    };
    if str_eq(proposed.as_str(), current) {
        let mut e = to_owned("The proposed model '");
        push_str(&mut e, proposed.as_str());
        push_str(&mut e, "' is already the active model for this chat. No change needed.");
        return Err(e);
    }
    Ok(proposed)
}

/// What `/model <argument>` does.
#[derive(Debug, Clone, PartialEq, Eq)]
pub enum ModelCommand {
    /// Answer with this text and change nothing.
    Reply(String),
    /// Make `model` the chat's model and answer with `reply`.
    SetOverride { model: String, reply: String },
}

/// What `/model <arg>` does in a chat whose model is `current`, with
/// OpenRouter as its provider or not:
/// - `:<x>` with an unknown specifier `x` lists the valid ones, whatever the
///   provider;
/// - a known specifier is applied to the current model when the provider is
///   OpenRouter; other providers have no routing;
/// - anything else is the new model.
pub open spec fn model_command_matches(r: ModelCommand, arg: Seq<char>, current: Seq<char>, openrouter: bool) -> bool {
    if has_prefix(arg, ":"@) {
        let s = arg.subrange(1, arg.len() as int);
        if !is_specifier(s) {
            r matches ModelCommand::Reply(t) && t@ == "Unknown specifier `:"@ + s
                + "`. Valid specifiers: `:nitro`, `:floor`, `:free`"@
        } else if !openrouter {
            r matches ModelCommand::Reply(t) && t@
                == "Routing specifiers are only available with OpenRouter."@
        } else {
            let m = spec_apply_specifier(current, s);
            r matches ModelCommand::SetOverride { model, reply } && model@ == m && reply@
                == "✅ Model set to `"@ + m + "` (specifier `:"@ + s + "` applied)"@
        }
    } else {
        r matches ModelCommand::SetOverride { model, reply } && model@ == arg && reply@
            == "✅ Model set to `"@ + arg + "`"@
    }
}

/// What `/model <arg>` does in a chat whose model is `current`.
pub fn model_command_step(arg: &str, current: &str, openrouter: bool) -> (r: ModelCommand)
    ensures
        model_command_matches(r, arg@, current@, openrouter),
{
    proof {
        reveal_strlit(":");
    }
    if crate::text::starts_with(arg, ":") {
        let n = arg.unicode_len();
        let s = arg.substring_char(1, n);
        if !is_valid_specifier(s) {
            let mut t = to_owned("Unknown specifier `:");
            push_str(&mut t, s);
            push_str(&mut t, "`. Valid specifiers: `:nitro`, `:floor`, `:free`");
            return ModelCommand::Reply(t);
        }
        if !openrouter {
            return ModelCommand::Reply(
                to_owned("Routing specifiers are only available with OpenRouter."),
            );
        }
        let model = apply_specifier(current, s);
        let mut reply = to_owned("✅ Model set to `");
        push_str(&mut reply, model.as_str());
        push_str(&mut reply, "` (specifier `:");
        push_str(&mut reply, s);
        push_str(&mut reply, "` applied)");
        return ModelCommand::SetOverride { model, reply };
    }
    ModelCommand::SetOverride { model: to_owned(arg), reply: crate::commands::model_set_text(arg) }
}

/// Applying a specifier and reading it back gives the specifier and the
/// base model.
pub proof fn lemma_apply_then_split(model: Seq<char>, specifier: Seq<char>)
    requires
        is_specifier(specifier),
    ensures
        spec_split_specifier(spec_apply_specifier(model, specifier)) == (
            spec_split_specifier(model).0,
            Some(specifier),
        ),
{
    let base = spec_split_specifier(model).0;
    let m = spec_apply_specifier(model, specifier);
    let i = base.len() as int;
    reveal_strlit(":");
    assert(m[i] == ':');
    assert forall|j: int| i < j < m.len() implies m[j] != ':' by {
        reveal_strlit("nitro");
        reveal_strlit("floor");
        reveal_strlit("free");
    }
    assert(crate::text::is_last_index(m, ':', i));
    assert(m.contains(':'));
    let k = choose|k: int| crate::text::is_last_index(m, ':', k);
    assert(k == i) by {
        if k < i {
            assert(m[i] == ':');
        } else if k > i {
            assert(m[k] == ':');
        }
    }
    assert(m.subrange(0, i) =~= base);
    assert(m.subrange(i + 1, m.len() as int) =~= specifier);
}

/// Applying a specifier twice is applying the second one: it replaces the
/// first.
pub proof fn lemma_specifier_replaces(model: Seq<char>, first: Seq<char>, second: Seq<char>)
    requires
        is_specifier(first),
    ensures
        spec_apply_specifier(spec_apply_specifier(model, first), second) == spec_apply_specifier(
            model,
            second,
        ),
{
    lemma_apply_then_split(model, first);
}

} // verus!
