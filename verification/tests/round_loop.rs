use glowbot::pipeline::{
    llm_round_step, RoundAction, RoundEvent, RoundReply, HEARTBEAT_TOOL_ROUNDS, MAX_TOOL_ROUNDS,
};

const LOOP_TEXT: &str = "I ran into a loop processing your request. Please try again.";

fn reply(tool_calls: Option<usize>, content: Option<&str>, reasoning: Option<&str>) -> RoundEvent {
    RoundEvent::ModelReplied(Some(RoundReply {
        tool_calls,
        content: content.map(|s| s.to_string()),
        reasoning: reasoning.map(|s| s.to_string()),
    }))
}

fn finish(text: &str, reasoning: Option<&str>) -> RoundAction {
    RoundAction::Finish { text: text.to_string(), reasoning: reasoning.map(|s| s.to_string()) }
}

#[test]
fn rounds_call_the_model_until_the_limit() {
    assert_eq!(MAX_TOOL_ROUNDS, 64);
    assert_eq!(HEARTBEAT_TOOL_ROUNDS, 10);
    assert_eq!(llm_round_step(0, MAX_TOOL_ROUNDS, false, &RoundEvent::RoundStart), RoundAction::CallModel);
    assert_eq!(llm_round_step(63, MAX_TOOL_ROUNDS, false, &RoundEvent::RoundStart), RoundAction::CallModel);
    assert_eq!(llm_round_step(64, MAX_TOOL_ROUNDS, false, &RoundEvent::RoundStart), finish(LOOP_TEXT, None));
    assert_eq!(llm_round_step(10, HEARTBEAT_TOOL_ROUNDS, false, &RoundEvent::RoundStart), finish(LOOP_TEXT, None));
}

#[test]
fn stop_signal_ends_the_turn() {
    let stopped = RoundAction::Stop("⏹ Stopped.".to_string());
    assert_eq!(llm_round_step(0, MAX_TOOL_ROUNDS, true, &RoundEvent::RoundStart), stopped);
    assert_eq!(llm_round_step(3, MAX_TOOL_ROUNDS, true, &reply(Some(2), None, None)), stopped);
    assert_eq!(llm_round_step(3, MAX_TOOL_ROUNDS, true, &RoundEvent::ToolsDone), stopped);
}

#[test]
fn replies_decide_the_next_step() {
    assert_eq!(llm_round_step(0, MAX_TOOL_ROUNDS, false, &reply(Some(2), Some("x"), None)), RoundAction::RunTools);
    assert_eq!(
        llm_round_step(0, MAX_TOOL_ROUNDS, false, &reply(Some(0), Some("done"), Some("why"))),
        finish("done", None)
    );
    assert_eq!(
        llm_round_step(0, MAX_TOOL_ROUNDS, false, &reply(None, Some("Hello!"), Some("because"))),
        finish("Hello!", Some("because"))
    );
    assert_eq!(llm_round_step(0, MAX_TOOL_ROUNDS, false, &reply(None, None, None)), finish("", None));
    assert_eq!(
        llm_round_step(0, MAX_TOOL_ROUNDS, false, &RoundEvent::ModelReplied(None)),
        finish(LOOP_TEXT, None)
    );
    assert_eq!(llm_round_step(5, MAX_TOOL_ROUNDS, false, &RoundEvent::ToolsDone), RoundAction::NextRound);
}
