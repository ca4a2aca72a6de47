//! The round loop that answers a message: call the model, run the tools it
//! asks for, and go on until it answers in words, the user stops it, or the
//! rounds run out. The model calls and the tools are the caller's work; this
//! module decides what comes next.

use vstd::prelude::*;
use crate::config::ostr;
use crate::dispatch::arg_text;
use crate::text::to_owned;

verus! {

/// Most model calls made for one user message.
pub const MAX_TOOL_ROUNDS: usize = 64;

/// Most model calls made for one heartbeat task or reminder action.
pub const HEARTBEAT_TOOL_ROUNDS: usize = 10;

/// What the model answered in a round, as far as the loop reads it.
pub struct RoundReply {
    /// The number of tool calls, when the answer has a tool-call list.
    pub tool_calls: Option<usize>,
    pub content: Option<String>,
    pub reasoning: Option<String>,
}

/// Where the loop stands.
pub enum RoundEvent {
    /// A round is about to begin.
    RoundStart,
    /// The model answered; `None` when the answer had no choice in it.
    ModelReplied(Option<RoundReply>),
    /// The tools of this round have run.
    ToolsDone,
}

/// What to do next.
#[derive(Debug, Clone, PartialEq, Eq)]
pub enum RoundAction {
    /// The user stopped the work: answer with this text.
    Stop(String),
    /// Call the model for this round.
    CallModel,
    /// Run the tools that the model asked for.
    RunTools,
    /// Begin the next round.
    NextRound,
    /// The turn is over: answer with this text and reasoning.
    Finish { text: String, reasoning: Option<String> },
}

/// Whether `r` finishes the turn with `text` and `reasoning`.
pub open spec fn finishes_with(r: RoundAction, text: Seq<char>, reasoning: Option<Seq<char>>) -> bool {
    r matches RoundAction::Finish { text: t, reasoning: why } && t@ == text && ostr(why)
        == reasoning
}

/// The answer when no round ended the turn.
pub open spec fn loop_text() -> Seq<char> {
    "I ran into a loop processing your request. Please try again."@
}

/// Whether `r` is what comes after `event` in round `round` of at most
/// `max_rounds`, with the stop signal `stopped`:
/// - once the rounds are used up, the turn ends with the loop text;
/// - else a raised stop signal ends it with "⏹ Stopped.";
/// - a round begins with a model call, and tools that ran lead to the next
///   round;
/// - an answer without a choice ends the turn with the loop text; one with a
///   non-empty tool-call list has its tools run; one with an empty list ends
///   the turn with its content; one without a list ends it with its content
///   and reasoning.
pub open spec fn round_step_matches(
    r: RoundAction,
    round: nat,
    max_rounds: nat,
    stopped: bool,
    event: RoundEvent,
) -> bool {
    if event is RoundStart && round >= max_rounds {
        finishes_with(r, loop_text(), None)
    } else if stopped {
        r matches RoundAction::Stop(t) && t@ == "⏹ Stopped."@
    } else {
        match event {
            RoundEvent::RoundStart => r is CallModel,
            RoundEvent::ToolsDone => r is NextRound,
            RoundEvent::ModelReplied(None) => finishes_with(r, loop_text(), None),
            RoundEvent::ModelReplied(Some(reply)) => match reply.tool_calls {
                Some(n) => if n == 0 {
                    finishes_with(r, arg_text(reply.content), None)
                } else {
                    r is RunTools
                },
                None => finishes_with(r, arg_text(reply.content), ostr(reply.reasoning)),
            },
        }
    }
}

fn text_or_empty(a: &Option<String>) -> (r: String)
    ensures
        r@ == arg_text(*a),
{
    match a {
        Some(s) => to_owned(s.as_str()),
        None => String::new(),
    }
}

/// What comes after `event` in round `round` of at most `max_rounds`, with
/// the stop signal `stopped`.
pub fn llm_round_step(round: usize, max_rounds: usize, stopped: bool, event: &RoundEvent) -> (r:
    RoundAction)
    ensures
        round_step_matches(r, round as nat, max_rounds as nat, stopped, *event),
{
    if let RoundEvent::RoundStart = event {
        if round >= max_rounds {
            return RoundAction::Finish {
                text: to_owned("I ran into a loop processing your request. Please try again."),
                reasoning: None,
            };
        }
    }
    if stopped {
        return RoundAction::Stop(to_owned("⏹ Stopped."));
    }
    match event {
        RoundEvent::RoundStart => RoundAction::CallModel,
        RoundEvent::ToolsDone => RoundAction::NextRound,
        RoundEvent::ModelReplied(None) => RoundAction::Finish {
            text: to_owned("I ran into a loop processing your request. Please try again."),
            reasoning: None,
        },
        RoundEvent::ModelReplied(Some(reply)) => match reply.tool_calls {
            Some(n) => {
                if n == 0 {
                    RoundAction::Finish { text: text_or_empty(&reply.content), reasoning: None }
                } else {
                    RoundAction::RunTools
                }
            },
            None => {
                let reasoning = match &reply.reasoning {
                    Some(s) => Some(to_owned(s.as_str())),
                    None => None,
                };
                RoundAction::Finish { text: text_or_empty(&reply.content), reasoning }
            },
        },
    }
}

/// A raised stop signal ends the turn at every step that the round limit
/// has not already ended.
pub proof fn lemma_stop_signal_wins(r: RoundAction, round: nat, max_rounds: nat, event: RoundEvent)
    requires
        round_step_matches(r, round, max_rounds, true, event),
        !(event is RoundStart && round >= max_rounds),
    ensures
        r is Stop,
{
}

/// No model call is made once `max_rounds` rounds have begun: the turn then
/// ends with the loop text.
pub proof fn lemma_model_calls_bounded(r: RoundAction, round: nat, max_rounds: nat, stopped: bool)
    requires
        round >= max_rounds,
        round_step_matches(r, round, max_rounds, stopped, RoundEvent::RoundStart),
    ensures
        r !is CallModel,
        finishes_with(r, loop_text(), None),
{
}

/// A model call is made at the start of every round below the limit unless
/// the stop signal is raised.
pub proof fn lemma_round_starts_with_call(r: RoundAction, round: nat, max_rounds: nat)
    requires
        round < max_rounds,
        round_step_matches(r, round, max_rounds, false, RoundEvent::RoundStart),
    ensures
        r is CallModel,
{
}

} // verus!
