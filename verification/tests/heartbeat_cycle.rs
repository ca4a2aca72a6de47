use glowbot::heartbeat::{
    heartbeat_step, reminder_step, AgentAction, AgentEvent, HeartbeatAction, HeartbeatCycle,
    HeartbeatEvent,
};
use glowbot::pipeline::RoundReply;

fn next(ids: &[&str]) -> HeartbeatEvent {
    HeartbeatEvent::NextTask { task_ids: ids.iter().map(|s| s.to_string()).collect(), shutdown: false }
}

fn replied(tool_calls: Option<usize>) -> HeartbeatEvent {
    HeartbeatEvent::ModelReplied(Some(RoundReply { tool_calls, content: Some("Done!".into()), reasoning: None }))
}

fn step(c: HeartbeatCycle, e: HeartbeatEvent) -> (HeartbeatCycle, HeartbeatAction) {
    heartbeat_step(&c, &e)
}

#[test]
fn bot_tests_heartbeat_test_heartbeat_no_tasks() {
    let (c, a) = step(HeartbeatCycle::new(), next(&[]));
    assert_eq!(a, HeartbeatAction::Finished);
    assert!(c.tried.is_empty());
}

#[test]
fn bot_tests_heartbeat_test_heartbeat_completes_task() {
    let (c, a) = step(HeartbeatCycle::new(), next(&["t1"]));
    assert_eq!(a, HeartbeatAction::StartTask { index: 0 });
    let (c, a) = step(c, replied(Some(1)));
    assert_eq!(a, HeartbeatAction::RunTools);
    let (c, a) = step(c, HeartbeatEvent::ToolsDone);
    assert_eq!(a, HeartbeatAction::CallModel);
    let (c, a) = step(c, replied(None));
    assert_eq!(a, HeartbeatAction::TaskDone);
    // the task removed itself: nothing is left
    let (_, a) = step(c, next(&[]));
    assert_eq!(a, HeartbeatAction::Finished);
}

#[test]
fn bot_tests_heartbeat_test_heartbeat_two_tasks_first_uncompleted() {
    let (c, a) = step(HeartbeatCycle::new(), next(&["t1", "t2"]));
    assert_eq!(a, HeartbeatAction::StartTask { index: 0 });
    let (c, a) = step(c, replied(None));
    assert_eq!(a, HeartbeatAction::TaskDone);
    // the first task is still pending, yet the second one comes next
    let (c, a) = step(c, next(&["t1", "t2"]));
    assert_eq!(a, HeartbeatAction::StartTask { index: 1 });
    let (c, a) = step(c, replied(Some(0)));
    assert_eq!(a, HeartbeatAction::TaskDone);
    let (c, a) = step(c, next(&["t1"]));
    assert_eq!(a, HeartbeatAction::Finished);
    assert_eq!(c.tried, vec!["t1".to_string(), "t2".to_string()]);
}

#[test]
fn bot_tests_heartbeat_test_heartbeat_llm_error() {
    let (c, _) = step(HeartbeatCycle::new(), next(&["err1"]));
    let (c, a) = step(c, HeartbeatEvent::ModelFailed("boom".into()));
    assert_eq!(a, HeartbeatAction::Report("⚠️ Task 'err1' failed: LLM error — boom".into()));
    let (_, a) = step(c, next(&["err1"]));
    assert_eq!(a, HeartbeatAction::Finished);
}

#[test]
fn heartbeat_stops_on_shutdown_and_limits_calls() {
    let shutdown = HeartbeatEvent::NextTask { task_ids: vec!["t1".into()], shutdown: true };
    assert_eq!(step(HeartbeatCycle::new(), shutdown).1, HeartbeatAction::Stop);
    let (mut c, _) = step(HeartbeatCycle::new(), next(&["t1"]));
    let mut calls = 1;
    loop {
        let (c2, a) = step(c, replied(Some(2)));
        assert_eq!(a, HeartbeatAction::RunTools);
        let (c3, a) = step(c2, HeartbeatEvent::ToolsDone);
        c = c3;
        if a == HeartbeatAction::CallModel {
            calls += 1;
        } else {
            assert_eq!(a, HeartbeatAction::TaskDone);
            break;
        }
    }
    assert_eq!(calls, 10);
}

#[test]
fn reminder_actions_follow_the_model() {
    assert_eq!(reminder_step(0, true, &AgentEvent::Start, "x"), AgentAction::Done);
    assert_eq!(reminder_step(0, false, &AgentEvent::Start, "x"), AgentAction::CallModel);
    assert_eq!(reminder_step(3, false, &AgentEvent::ToolsDone, "x"), AgentAction::CallModel);
    assert_eq!(reminder_step(10, false, &AgentEvent::ToolsDone, "x"), AgentAction::Done);
    let reply = AgentEvent::ModelReplied(Some(RoundReply { tool_calls: Some(1), content: None, reasoning: None }));
    assert_eq!(reminder_step(1, false, &reply, "x"), AgentAction::RunTools);
    assert_eq!(reminder_step(1, false, &AgentEvent::ModelReplied(None), "x"), AgentAction::Done);
    assert_eq!(
        reminder_step(1, false, &AgentEvent::ModelFailed("timeout".into()), "water plants"),
        AgentAction::Report("⏰ Reminder: water plants\n⚠️ Action failed: LLM error — timeout".into())
    );
}
