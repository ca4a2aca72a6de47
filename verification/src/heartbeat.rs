//! The background cycle of a chat: which task comes next, what the model is
//! told when a task or a reminder is worked on, and what the chat is told.

use vstd::prelude::*;
use crate::config::{copy_strings, ostr, strs};
use crate::pipeline::{RoundReply, HEARTBEAT_TOOL_ROUNDS};
use crate::text::{contains_seq, has_prefix, has_suffix, occurs_at, push_str, str_eq, to_owned};

verus! {

/// The first task of `task_ids` not yet tried in this cycle, if any.
pub open spec fn spec_next_untried(task_ids: Seq<Seq<char>>, tried: Seq<Seq<char>>) -> Option<int> {
    if exists|i: int| 0 <= i < task_ids.len() && !tried.contains(task_ids[i]) {
        Some(
            choose|i: int|
                0 <= i < task_ids.len() && !tried.contains(task_ids[i]) && forall|j: int|
                    0 <= j < i ==> tried.contains(#[trigger] task_ids[j]),
        )
    } else {
        None
    }
}

fn tried_contains(tried: &Vec<String>, id: &str) -> (r: bool)
    ensures
        r == tried@.map_values(|t: String| t@).contains(id@),
{
    let n = tried.len();
    let mut i: usize = 0;
    while i < n
        invariant
            n == tried@.len(),
            i <= n,
            forall|j: int| 0 <= j < i ==> tried@[j]@ != id@,
        decreases n - i,
    {
        if str_eq(tried[i].as_str(), id) {
            assert(tried@.map_values(|t: String| t@)[i as int] == id@);
            return true;
        }
        i += 1;
    }
    let ghost done = tried@.map_values(|t: String| t@);
    assert forall|j: int| 0 <= j < n implies #[trigger] done[j] != id@ by {
        assert(done[j] == tried@[j]@);
    }
    false
}

/// The next task to work on: the first one not yet tried in this cycle.
pub fn next_untried_task(task_ids: &Vec<String>, tried: &Vec<String>) -> (r: Option<usize>)
    ensures
        match r {
            Some(i) => spec_next_untried(
                task_ids@.map_values(|t: String| t@),
                tried@.map_values(|t: String| t@),
            ) == Some(i as int),
            None => spec_next_untried(
                task_ids@.map_values(|t: String| t@),
                tried@.map_values(|t: String| t@),
            ) is None,
        },
{
    let ghost ids = task_ids@.map_values(|t: String| t@);
    let ghost done = tried@.map_values(|t: String| t@);
    let n = task_ids.len();
    let mut i: usize = 0;
    while i < n
        invariant
            n == task_ids@.len(),
            ids == task_ids@.map_values(|t: String| t@),
            done == tried@.map_values(|t: String| t@),
            i <= n,
            forall|j: int| 0 <= j < i ==> done.contains(#[trigger] ids[j]),
        decreases n - i,
    {
        if !tried_contains(tried, task_ids[i].as_str()) {
            proof {
                assert(ids[i as int] == task_ids@[i as int]@);
                assert(0 <= i < ids.len() && !done.contains(ids[i as int]));
                let k = choose|k: int|
                    0 <= k < ids.len() && !done.contains(ids[k]) && forall|j: int|
                        0 <= j < k ==> done.contains(#[trigger] ids[j]);
                if k < i {
                    assert(done.contains(ids[k]));
                } else if k > i {
                    assert(done.contains(ids[i as int]));
                }
            }
            return Some(i);
        }
        assert(ids[i as int] == task_ids@[i as int]@);
        i += 1;
    }
    None
}

proof fn lemma_first_untried_exists(task_ids: Seq<Seq<char>>, tried: Seq<Seq<char>>, i: int)
    requires
        0 <= i < task_ids.len(),
        !tried.contains(task_ids[i]),
    ensures
        exists|k: int|
            0 <= k < task_ids.len() && !tried.contains(task_ids[k]) && forall|j: int|
                0 <= j < k ==> tried.contains(#[trigger] task_ids[j]),
    decreases i,
{
    if forall|j: int| 0 <= j < i ==> tried.contains(#[trigger] task_ids[j]) {
    } else {
        let j = choose|j: int| 0 <= j < i && !tried.contains(#[trigger] task_ids[j]);
        lemma_first_untried_exists(task_ids, tried, j);
    }
}

/// The next untried task is a task of the list not tried yet, and every
/// task before it was tried.
proof fn lemma_next_untried_props(task_ids: Seq<Seq<char>>, tried: Seq<Seq<char>>)
    ensures
        match spec_next_untried(task_ids, tried) {
            Some(i) => 0 <= i < task_ids.len() && !tried.contains(task_ids[i]) && forall|j: int|
                0 <= j < i ==> tried.contains(#[trigger] task_ids[j]),
            None => forall|j: int| 0 <= j < task_ids.len() ==> tried.contains(#[trigger] task_ids[j]),
        },
{
    if exists|i: int| 0 <= i < task_ids.len() && !tried.contains(task_ids[i]) {
        let i = choose|i: int| 0 <= i < task_ids.len() && !tried.contains(task_ids[i]);
        lemma_first_untried_exists(task_ids, tried, i);
    }
}

/// What the chat is told when a reminder without an action fires.
pub fn reminder_notice(description: &str) -> (r: String)
    ensures
        r@ == "⏰ Reminder: "@ + description@,
{
    let mut r = to_owned("⏰ Reminder: ");
    push_str(&mut r, description);
    r
}

/// What the chat is told when the model fails on a reminder's action.
pub fn reminder_failure(description: &str, error: &str) -> (r: String)
    ensures
        r@ == "⏰ Reminder: "@ + description@ + "\n⚠️ Action failed: LLM error — "@ + error@,
{
    let mut r = reminder_notice(description);
    push_str(&mut r, "\n⚠️ Action failed: LLM error — ");
    push_str(&mut r, error);
    r
}

/// What the chat is told when the model fails on a task.
pub fn task_failure(task_id: &str, error: &str) -> (r: String)
    ensures
        r@ == "⚠️ Task '"@ + task_id@ + "' failed: LLM error — "@ + error@,
{
    let mut r = to_owned("⚠️ Task '");
    push_str(&mut r, task_id);
    push_str(&mut r, "' failed: LLM error — ");
    push_str(&mut r, error);
    r
}

/// What the model is told when a reminder with an action fires.
pub open spec fn spec_reminder_prompt(description: Seq<char>, action: Seq<char>, date: Seq<char>) -> Seq<
    char,
> {
    "## Reminder Triggered\nA reminder you created has fired.\nReminder: "@ + description
        + "\nAction to perform: "@ + action
        + "\nInstructions:\n- Perform the action described above using your available tools.\n- When done, send ONE message to the chat with the results using send_message.\n- The reminder will be automatically removed after you finish. Do NOT call remove_reminder yourself.\n- Include the reminder context ('⏰ Reminder: "@
        + description + "') in your message to the user.\nCurrent date: "@ + date
}

/// What the model is told when a reminder with an action fires.
pub fn reminder_prompt(description: &str, action: &str, date: &str) -> (r: String)
    ensures
        r@ == spec_reminder_prompt(description@, action@, date@),
{
    let mut r = to_owned("## Reminder Triggered\nA reminder you created has fired.\nReminder: ");
    push_str(&mut r, description);
    push_str(&mut r, "\nAction to perform: ");
    push_str(&mut r, action);
    push_str(
        &mut r,
        "\nInstructions:\n- Perform the action described above using your available tools.\n- When done, send ONE message to the chat with the results using send_message.\n- The reminder will be automatically removed after you finish. Do NOT call remove_reminder yourself.\n- Include the reminder context ('⏰ Reminder: ",
    );
    push_str(&mut r, description);
    push_str(&mut r, "') in your message to the user.\nCurrent date: ");
    push_str(&mut r, date);
    r
}

/// What the model is told when it works on a background task.
pub open spec fn spec_task_prompt(task: Seq<char>, task_id: Seq<char>, date: Seq<char>) -> Seq<char> {
    "## Background Task\nYou are processing a scheduled task for this chat.\nTask: "@ + task
        + "\nInstructions:\n- Use your available tools to complete the task.\n- When done, call remove_task(\""@
        + task_id
        + "\") to mark it complete.\n- If the task spawns follow-up work, call add_task(\"...\") for each.\n- If the task cannot be completed yet (e.g. download still in progress, waiting for external event),\njust leave it — do NOT remove it, do NOT add a new identical one. It will automatically run again next cycle.\n- You may send at most ONE message to the chat to report completion or deliver results, using the send_message tool. Do NOT spam progress updates.\n- If the task has already been completed (e.g. file already downloaded, action already performed, nothing left to do),\nquietly call remove_task(\""@
        + task_id + "\") and exit — do NOT send any message.\nCurrent date: "@ + date
}

/// What the model is told when it works on a background task.
pub fn task_prompt(task: &str, task_id: &str, date: &str) -> (r: String)
    ensures
        r@ == spec_task_prompt(task@, task_id@, date@),
{
    let mut r = to_owned(
        "## Background Task\nYou are processing a scheduled task for this chat.\nTask: ",
    );
    push_str(&mut r, task);
    push_str(
        &mut r,
        "\nInstructions:\n- Use your available tools to complete the task.\n- When done, call remove_task(\"",
    );
    push_str(&mut r, task_id);
    push_str(
        &mut r,
        "\") to mark it complete.\n- If the task spawns follow-up work, call add_task(\"...\") for each.\n- If the task cannot be completed yet (e.g. download still in progress, waiting for external event),\njust leave it — do NOT remove it, do NOT add a new identical one. It will automatically run again next cycle.\n- You may send at most ONE message to the chat to report completion or deliver results, using the send_message tool. Do NOT spam progress updates.\n- If the task has already been completed (e.g. file already downloaded, action already performed, nothing left to do),\nquietly call remove_task(\"",
    );
    push_str(&mut r, task_id);
    push_str(&mut r, "\") and exit — do NOT send any message.\nCurrent date: ");
    push_str(&mut r, date);
    r
}


/// The task prompt names the task, tells the model to finish by removing
/// the task under its own ID, and ends with the current date.
pub proof fn lemma_task_prompt_names_task(task: Seq<char>, task_id: Seq<char>, date: Seq<char>)
    ensures
        has_prefix(
            spec_task_prompt(task, task_id, date),
            "## Background Task\nYou are processing a scheduled task for this chat.\nTask: "@ + task + "\n"@,
        ),
        contains_seq(spec_task_prompt(task, task_id, date), "call remove_task(\""@ + task_id + "\")"@),
        has_suffix(spec_task_prompt(task, task_id, date), "\nCurrent date: "@ + date),
{
    let head = "## Background Task\nYou are processing a scheduled task for this chat.\nTask: "@;
    let i1 = "\nInstructions:\n- Use your available tools to complete the task.\n- When done, call remove_task(\""@;
    let i2 = "\") to mark it complete.\n- If the task spawns follow-up work, call add_task(\"...\") for each.\n- If the task cannot be completed yet (e.g. download still in progress, waiting for external event),\njust leave it — do NOT remove it, do NOT add a new identical one. It will automatically run again next cycle.\n- You may send at most ONE message to the chat to report completion or deliver results, using the send_message tool. Do NOT spam progress updates.\n- If the task has already been completed (e.g. file already downloaded, action already performed, nothing left to do),\nquietly call remove_task(\""@;
    let i3 = "\") and exit — do NOT send any message.\nCurrent date: "@;
    reveal_strlit("\nInstructions:\n- Use your available tools to complete the task.\n- When done, call remove_task(\"");
    reveal_strlit("\") to mark it complete.\n- If the task spawns follow-up work, call add_task(\"...\") for each.\n- If the task cannot be completed yet (e.g. download still in progress, waiting for external event),\njust leave it — do NOT remove it, do NOT add a new identical one. It will automatically run again next cycle.\n- You may send at most ONE message to the chat to report completion or deliver results, using the send_message tool. Do NOT spam progress updates.\n- If the task has already been completed (e.g. file already downloaded, action already performed, nothing left to do),\nquietly call remove_task(\"");
    reveal_strlit("\") and exit — do NOT send any message.\nCurrent date: ");
    reveal_strlit("\n");
    reveal_strlit("call remove_task(\"");
    reveal_strlit("\")");
    reveal_strlit("\nCurrent date: ");
    let r = spec_task_prompt(task, task_id, date);
    assert(r =~= head + task + i1 + task_id + i2 + task_id + i3 + date);
    let pre = head + task + "\n"@;
    assert(r.subrange(0, pre.len() as int) =~= pre);
    let call = "call remove_task(\""@ + task_id + "\")"@;
    let k = (head + task + i1).len() - "call remove_task(\""@.len();
    assert(r.subrange(k, k + call.len()) =~= call);
    assert(occurs_at(r, call, k));
    let tail = "\nCurrent date: "@ + date;
    assert(r.subrange(r.len() - tail.len(), r.len() as int) =~= tail);
}

/// The prompt of a reminder with an action names the reminder and the
/// action to perform, and ends with the current date.
pub proof fn lemma_reminder_prompt_names_action(description: Seq<char>, action: Seq<char>, date: Seq<char>)
    ensures
        has_prefix(
            spec_reminder_prompt(description, action, date),
            "## Reminder Triggered\nA reminder you created has fired.\nReminder: "@ + description
                + "\nAction to perform: "@ + action + "\n"@,
        ),
        has_suffix(spec_reminder_prompt(description, action, date), "\nCurrent date: "@ + date),
{
    reveal_strlit("\nInstructions:\n- Perform the action described above using your available tools.\n- When done, send ONE message to the chat with the results using send_message.\n- The reminder will be automatically removed after you finish. Do NOT call remove_reminder yourself.\n- Include the reminder context ('⏰ Reminder: ");
    reveal_strlit("\n");
    reveal_strlit("\nCurrent date: ");
    reveal_strlit("') in your message to the user.\nCurrent date: ");
    let r = spec_reminder_prompt(description, action, date);
    let pre = "## Reminder Triggered\nA reminder you created has fired.\nReminder: "@ + description
        + "\nAction to perform: "@ + action + "\n"@;
    let ins = "\nInstructions:\n- Perform the action described above using your available tools.\n- When done, send ONE message to the chat with the results using send_message.\n- The reminder will be automatically removed after you finish. Do NOT call remove_reminder yourself.\n- Include the reminder context ('⏰ Reminder: "@;
    let head = "## Reminder Triggered\nA reminder you created has fired.\nReminder: "@ + description
        + "\nAction to perform: "@ + action;
    assert(ins =~= "\n"@ + ins.skip(1));
    assert(r =~= head + ins + description + "') in your message to the user.\nCurrent date: "@ + date);
    assert(r.subrange(0, pre.len() as int) =~= pre);
    let tail = "\nCurrent date: "@ + date;
    let last = "') in your message to the user.\nCurrent date: "@;
    assert(last.subrange(last.len() - 15, last.len() as int) =~= "\nCurrent date: "@);
    assert(r.subrange(r.len() - tail.len(), r.len() as int) =~= tail);
}

/// Whether the model's answer asks for tools to be run: it has a non-empty
/// tool-call list.
pub open spec fn wants_tools(reply: Option<RoundReply>) -> bool {
    reply matches Some(r) && r.tool_calls matches Some(n) && n > 0
}

fn wants_tools_exec(reply: &Option<RoundReply>) -> (r: bool)
    ensures
        r == wants_tools(*reply),
{
    match reply {
        Some(r) => match r.tool_calls {
            Some(n) => n > 0,
            None => false,
        },
        None => false,
    }
}

/// Where the work on a reminder's action (or a task) stands.
pub enum AgentEvent {
    /// The work is about to begin.
    Start,
    /// The model answered; `None` when the answer had no choice in it.
    ModelReplied(Option<RoundReply>),
    /// The model call failed with this error.
    ModelFailed(String),
    /// The tools that the model asked for have run.
    ToolsDone,
}

/// What the agent does next.
#[derive(Debug, Clone, PartialEq, Eq)]
pub enum AgentAction {
    CallModel,
    RunTools,
    /// Tell the chat this and stop.
    Report(String),
    /// The work is over.
    Done,
}

/// Whether `r` comes after `event` in the work on a reminder with
/// `description`, `calls` model calls having been made, with a shutdown
/// requested or not: a requested shutdown skips the reminder; the model is
/// called at most `HEARTBEAT_TOOL_ROUNDS` times, its tools are run while it
/// asks for them, and a failed call is reported.
pub open spec fn reminder_step_matches(
    r: AgentAction,
    calls: nat,
    shutdown: bool,
    event: AgentEvent,
    description: Seq<char>,
) -> bool {
    match event {
        AgentEvent::Start => if shutdown {
            r is Done
        } else {
            r is CallModel
        },
        AgentEvent::ModelReplied(reply) => if wants_tools(reply) {
            r is RunTools
        } else {
            r is Done
        },
        AgentEvent::ModelFailed(e) => r matches AgentAction::Report(t) && t@ == "⏰ Reminder: "@
            + description + "\n⚠️ Action failed: LLM error — "@ + e@,
        AgentEvent::ToolsDone => if calls >= HEARTBEAT_TOOL_ROUNDS {
            r is Done
        } else {
            r is CallModel
        },
    }
}

/// The model is called for a reminder only to begin (unless a shutdown was
/// requested) or after tools ran, and then only while fewer than
/// `HEARTBEAT_TOOL_ROUNDS` calls were made; tools run only when the model
/// asked for some; a failed call, and only that, is reported to the chat,
/// with the reminder's text.
pub proof fn lemma_reminder_step_bounded(
    r: AgentAction,
    calls: nat,
    shutdown: bool,
    event: AgentEvent,
    description: Seq<char>,
)
    requires
        reminder_step_matches(r, calls, shutdown, event, description),
    ensures
        r is CallModel ==> (event is Start && !shutdown) || (event is ToolsDone && calls
            < HEARTBEAT_TOOL_ROUNDS),
        r is RunTools ==> (event matches AgentEvent::ModelReplied(reply) && wants_tools(reply)),
        (r is Report) <==> (event is ModelFailed),
        r matches AgentAction::Report(t) ==> has_prefix(t@, "⏰ Reminder: "@ + description + "\n"@),
        shutdown && event is Start ==> r is Done,
{
    if let AgentAction::Report(t) = r {
        if let AgentEvent::ModelFailed(e) = event {
            reveal_strlit("\n⚠️ Action failed: LLM error — ");
            reveal_strlit("\n");
            let pre = "⏰ Reminder: "@ + description + "\n"@;
            let rest = "\n⚠️ Action failed: LLM error — "@;
            assert(rest =~= "\n"@ + rest.skip(1));
            assert(t@ =~= pre + rest.skip(1) + e@);
            assert(t@.subrange(0, pre.len() as int) =~= pre);
        }
    }
}

/// What comes after `event` in the work on a reminder's action.
pub fn reminder_step(calls: usize, shutdown: bool, event: &AgentEvent, description: &str) -> (r:
    AgentAction)
    ensures
        reminder_step_matches(r, calls as nat, shutdown, *event, description@),
{
    match event {
        AgentEvent::Start => if shutdown {
            AgentAction::Done
        } else {
            AgentAction::CallModel
        },
        AgentEvent::ModelReplied(reply) => if wants_tools_exec(reply) {
            AgentAction::RunTools
        } else {
            AgentAction::Done
        },
        AgentEvent::ModelFailed(e) => AgentAction::Report(reminder_failure(description, e.as_str())),
        AgentEvent::ToolsDone => if calls >= HEARTBEAT_TOOL_ROUNDS {
            AgentAction::Done
        } else {
            AgentAction::CallModel
        },
    }
}

/// A heartbeat cycle over a chat's tasks: the IDs handed to the model so
/// far, the task being worked on, and the model calls made for it.
pub struct HeartbeatCycle {
    pub tried: Vec<String>,
    pub current: Option<String>,
    pub calls: usize,
}

/// The values of a [`HeartbeatCycle`].
pub struct CycleView {
    pub tried: Seq<Seq<char>>,
    pub current: Option<Seq<char>>,
    pub calls: nat,
}

impl View for HeartbeatCycle {
    type V = CycleView;

    open spec fn view(&self) -> CycleView {
        CycleView { tried: strs(self.tried@), current: ostr(self.current), calls: self.calls as nat }
    }
}

impl HeartbeatCycle {
    /// A cycle that has tried nothing yet.
    pub fn new() -> (r: HeartbeatCycle)
        ensures
            r@ == (CycleView { tried: Seq::empty(), current: None, calls: 0 }),
    {
        let r = HeartbeatCycle { tried: Vec::new(), current: None, calls: 0 };
        assert(strs(r.tried@) =~= Seq::<Seq<char>>::empty());
        r
    }
}

/// What the cycle sees.
pub enum HeartbeatEvent {
    /// Ready for the next task: the chat's task IDs as they are now, and
    /// whether a shutdown was requested.
    NextTask { task_ids: Vec<String>, shutdown: bool },
    /// The model answered about the current task.
    ModelReplied(Option<RoundReply>),
    /// The model call for the current task failed with this error.
    ModelFailed(String),
    /// The tools of the current task have run.
    ToolsDone,
}

/// What the cycle does next.
#[derive(Debug, Clone, PartialEq, Eq)]
pub enum HeartbeatAction {
    /// A shutdown was requested: stop.
    Stop,
    /// Every task has been tried: the cycle is over.
    Finished,
    /// Work on task `index` of the list: tell the model about it and call it.
    StartTask { index: usize },
    CallModel,
    RunTools,
    /// Tell the chat this; the task is over.
    Report(String),
    /// The task is over; go on with the next one.
    TaskDone,
}

/// Whether `next` and `action` come after `event` in cycle `c`:
/// - on the way to the next task a requested shutdown stops the cycle; else
///   the first task not tried yet is started (and counted as tried, with one
///   model call), and when there is none the cycle is over;
/// - for the current task: tools run while the model asks for them, each
///   round calling the model again until `HEARTBEAT_TOOL_ROUNDS` calls were
///   made; a failed call is reported; any other answer ends the task;
/// - with no current task, a task event changes nothing.
pub open spec fn heartbeat_step_matches(
    c: CycleView,
    event: HeartbeatEvent,
    next: CycleView,
    action: HeartbeatAction,
) -> bool {
    let over = CycleView { current: None, ..c };
    match event {
        HeartbeatEvent::NextTask { task_ids, shutdown } => {
            let ids = strs(task_ids@);
            if shutdown {
                action is Stop && next == over
            } else {
                match spec_next_untried(ids, c.tried) {
                    None => action is Finished && next == over,
                    Some(i) => action == HeartbeatAction::StartTask { index: i as usize } && next
                        == (CycleView { tried: c.tried.push(ids[i]), current: Some(ids[i]), calls: 1 }),
                }
            }
        },
        _ => if c.current is None {
            action is TaskDone && next == c
        } else {
            match event {
                HeartbeatEvent::ModelReplied(reply) => if wants_tools(reply) {
                    action is RunTools && next == c
                } else {
                    action is TaskDone && next == over
                },
                HeartbeatEvent::ModelFailed(e) => action matches HeartbeatAction::Report(t) && t@
                    == "⚠️ Task '"@ + c.current->0 + "' failed: LLM error — "@ + e@ && next == over,
                _ => if c.calls >= HEARTBEAT_TOOL_ROUNDS {
                    action is TaskDone && next == over
                } else {
                    action is CallModel && next == (CycleView { calls: c.calls + 1, ..c })
                },
            }
        },
    }
}

/// What comes after `event` in the heartbeat cycle `cycle`.
pub fn heartbeat_step(cycle: &HeartbeatCycle, event: &HeartbeatEvent) -> (r: (
    HeartbeatCycle,
    HeartbeatAction,
))
    ensures
        heartbeat_step_matches(cycle@, *event, r.0@, r.1),
{
    let tried = copy_strings(&cycle.tried);
    match event {
        HeartbeatEvent::NextTask { task_ids, shutdown } => {
            if *shutdown {
                return (HeartbeatCycle { tried, current: None, calls: cycle.calls }, HeartbeatAction::Stop);
            }
            match next_untried_task(task_ids, &cycle.tried) {
                None => (HeartbeatCycle { tried, current: None, calls: cycle.calls }, HeartbeatAction::Finished),
                Some(i) => {
                    proof {
                        lemma_next_untried_props(strs(task_ids@), strs(cycle.tried@));
                    }
                    let mut tried = tried;
                    let id = to_owned(task_ids[i].as_str());
                    tried.push(to_owned(task_ids[i].as_str()));
                    proof {
                        assert(strs(tried@) =~= strs(cycle.tried@).push(strs(task_ids@)[i as int]));
                    }
                    (HeartbeatCycle { tried, current: Some(id), calls: 1 }, HeartbeatAction::StartTask { index: i })
                },
            }
        },
        _ => {
            let current = match &cycle.current {
                Some(c) => to_owned(c.as_str()),
                None => {
                    return (HeartbeatCycle { tried, current: None, calls: cycle.calls }, HeartbeatAction::TaskDone);
                },
            };
            match event {
                HeartbeatEvent::ModelReplied(reply) => {
                    if wants_tools_exec(reply) {
                        (HeartbeatCycle { tried, current: Some(current), calls: cycle.calls }, HeartbeatAction::RunTools)
                    } else {
                        (HeartbeatCycle { tried, current: None, calls: cycle.calls }, HeartbeatAction::TaskDone)
                    }
                },
                HeartbeatEvent::ModelFailed(e) => {
                    let t = task_failure(current.as_str(), e.as_str());
                    (HeartbeatCycle { tried, current: None, calls: cycle.calls }, HeartbeatAction::Report(t))
                },
                _ => {
                    if cycle.calls >= HEARTBEAT_TOOL_ROUNDS {
                        (HeartbeatCycle { tried, current: None, calls: cycle.calls }, HeartbeatAction::TaskDone)
                    } else {
                        (HeartbeatCycle { tried, current: Some(current), calls: cycle.calls + 1 }, HeartbeatAction::CallModel)
                    }
                },
            }
        },
    }
}

/// A cycle as the steps keep it: no task handed out twice, the current task
/// among those handed out, and at most `HEARTBEAT_TOOL_ROUNDS` model calls.
pub open spec fn cycle_ok(c: CycleView) -> bool {
    &&& c.tried.no_duplicates()
    &&& c.calls <= HEARTBEAT_TOOL_ROUNDS
    &&& c.current matches Some(id) ==> c.tried.contains(id)
}

/// The ID of the task started by `action` in a step to `next`.
pub open spec fn started_id(next: CycleView) -> Seq<char> {
    next.tried.last()
}

/// One step keeps a cycle in order: the handed-out IDs only grow, a started
/// task was not handed out before, a start counts one model call and every
/// further call one more, and nothing else changes the count.
pub proof fn lemma_heartbeat_step_keeps(
    c: CycleView,
    event: HeartbeatEvent,
    next: CycleView,
    action: HeartbeatAction,
)
    requires
        cycle_ok(c),
        heartbeat_step_matches(c, event, next, action),
    ensures
        cycle_ok(next),
        c.tried.is_prefix_of(next.tried),
        action is StartTask ==> next.tried.len() == c.tried.len() + 1 && !c.tried.contains(
            started_id(next),
        ) && next.calls == 1,
        !(action is StartTask) ==> next.tried == c.tried,
        action is CallModel ==> next.calls == c.calls + 1,
        !(action is StartTask) && !(action is CallModel) ==> next.calls == c.calls,
{
    assert(c.tried.is_prefix_of(c.tried));
    if let HeartbeatEvent::NextTask { task_ids, shutdown } = event {
        let ids = strs(task_ids@);
        if !shutdown {
            if let Some(i) = spec_next_untried(ids, c.tried) {
                lemma_next_untried_props(ids, c.tried);
                let t = c.tried.push(ids[i]);
                assert(t.last() == ids[i]);
                assert(c.tried.is_prefix_of(t)) by {
                    assert(t.subrange(0, c.tried.len() as int) =~= c.tried);
                }
                assert(t.no_duplicates()) by {
                    assert forall|a: int, b: int| 0 <= a < t.len() && 0 <= b < t.len() && a != b implies t[a]
                        != t[b] by {
                        if a == c.tried.len() {
                            assert(c.tried[b] == t[b]);
                            assert(c.tried.contains(c.tried[b]));
                        } else if b == c.tried.len() {
                            assert(c.tried[a] == t[a]);
                            assert(c.tried.contains(c.tried[a]));
                        } else {
                            assert(c.tried[a] == t[a] && c.tried[b] == t[b]);
                        }
                    }
                }
            }
        }
    }
}

/// The model calls among `actions`.
pub open spec fn count_calls(actions: Seq<HeartbeatAction>) -> nat
    decreases actions.len(),
{
    if actions.len() == 0 {
        0
    } else {
        count_calls(actions.drop_last()) + if actions.last() is CallModel {
            1nat
        } else {
            0nat
        }
    }
}

/// `cycles`, `events` and `actions` are a run of the cycle: each step goes
/// from `cycles[k]` with `events[k]` to `cycles[k + 1]` doing `actions[k]`.
pub open spec fn is_cycle_run(
    cycles: Seq<CycleView>,
    events: Seq<HeartbeatEvent>,
    actions: Seq<HeartbeatAction>,
) -> bool {
    &&& cycles.len() == events.len() + 1
    &&& actions.len() == events.len()
    &&& forall|k: int|
        0 <= k < events.len() ==> heartbeat_step_matches(
            #[trigger] cycles[k],
            events[k],
            cycles[k + 1],
            actions[k],
        )
}

proof fn lemma_run_prefix(
    cycles: Seq<CycleView>,
    events: Seq<HeartbeatEvent>,
    actions: Seq<HeartbeatAction>,
    k: int,
    l: int,
)
    requires
        is_cycle_run(cycles, events, actions),
        cycle_ok(cycles[0]),
        0 <= k <= l < cycles.len(),
    ensures
        cycle_ok(cycles[l]),
        cycles[k].tried.is_prefix_of(cycles[l].tried),
    decreases l,
{
    if l == 0 {
        assert(cycles[0].tried.is_prefix_of(cycles[0].tried));
    } else if k == l {
        lemma_run_prefix(cycles, events, actions, 0, l - 1);
        lemma_heartbeat_step_keeps(cycles[l - 1], events[l - 1], cycles[l], actions[l - 1]);
        assert(cycles[l].tried.is_prefix_of(cycles[l].tried));
    } else {
        lemma_run_prefix(cycles, events, actions, k, l - 1);
        lemma_heartbeat_step_keeps(cycles[l - 1], events[l - 1], cycles[l], actions[l - 1]);
        let a = cycles[k].tried;
        let b = cycles[l - 1].tried;
        let c = cycles[l].tried;
        assert forall|j: int| 0 <= j < a.len() implies a[j] == c[j] by {
            assert(a[j] == b[j]);
            assert(b[j] == c[j]);
        }
        assert(a.is_prefix_of(c));
    }
}

proof fn lemma_calls_since_start(
    cycles: Seq<CycleView>,
    events: Seq<HeartbeatEvent>,
    actions: Seq<HeartbeatAction>,
    k: int,
    l: int,
)
    requires
        is_cycle_run(cycles, events, actions),
        cycle_ok(cycles[0]),
        0 <= k < l <= events.len(),
        actions[k] is StartTask,
        forall|i: int| k < i < l ==> !(#[trigger] actions[i] is StartTask),
    ensures
        cycles[l].calls == 1 + count_calls(actions.subrange(k + 1, l)),
    decreases l - k,
{
    lemma_run_prefix(cycles, events, actions, 0, l - 1);
    lemma_heartbeat_step_keeps(cycles[l - 1], events[l - 1], cycles[l], actions[l - 1]);
    if l == k + 1 {
        assert(actions.subrange(k + 1, l) =~= Seq::<HeartbeatAction>::empty());
    } else {
        lemma_calls_since_start(cycles, events, actions, k, l - 1);
        assert(actions.subrange(k + 1, l).drop_last() =~= actions.subrange(k + 1, l - 1));
        assert(actions.subrange(k + 1, l).last() == actions[l - 1]);
    }
}

/// Along a heartbeat cycle that starts with nothing tried, no task ID is
/// handed to the model twice, and a task gets at most
/// `HEARTBEAT_TOOL_ROUNDS` model calls: the start and the calls that follow
/// it before the next task starts.
pub proof fn lemma_cycle_tries_each_task_once(
    cycles: Seq<CycleView>,
    events: Seq<HeartbeatEvent>,
    actions: Seq<HeartbeatAction>,
)
    requires
        is_cycle_run(cycles, events, actions),
        cycles[0].tried.len() == 0,
        cycles[0].calls <= HEARTBEAT_TOOL_ROUNDS,
        cycles[0].current is None,
    ensures
        forall|k: int, l: int|
            0 <= k < l < events.len() && #[trigger] actions[k] is StartTask
                && #[trigger] actions[l] is StartTask ==> started_id(cycles[k + 1]) != started_id(
                cycles[l + 1],
            ),
        forall|k: int, l: int|
            0 <= k < l <= events.len() && actions[k] is StartTask && (forall|i: int|
                k < i < l ==> !(#[trigger] actions[i] is StartTask)) ==> 1 + count_calls(
                #[trigger] actions.subrange(k + 1, l),
            ) <= HEARTBEAT_TOOL_ROUNDS,
{
    assert(cycles[0].tried.no_duplicates());
    assert forall|k: int, l: int|
        0 <= k < l < events.len() && #[trigger] actions[k] is StartTask
            && #[trigger] actions[l] is StartTask implies started_id(cycles[k + 1]) != started_id(
        cycles[l + 1],
    ) by {
        lemma_run_prefix(cycles, events, actions, 0, k);
        lemma_heartbeat_step_keeps(cycles[k], events[k], cycles[k + 1], actions[k]);
        lemma_run_prefix(cycles, events, actions, k + 1, l);
        lemma_run_prefix(cycles, events, actions, 0, l);
        lemma_heartbeat_step_keeps(cycles[l], events[l], cycles[l + 1], actions[l]);
        let t = cycles[k + 1].tried;
        let j = t.len() - 1;
        assert(cycles[l].tried[j] == t[j]);
        assert(cycles[l].tried.contains(started_id(cycles[k + 1])));
    }
    assert forall|k: int, l: int|
        0 <= k < l <= events.len() && actions[k] is StartTask && (forall|i: int|
            k < i < l ==> !(#[trigger] actions[i] is StartTask)) implies 1 + count_calls(
        #[trigger] actions.subrange(k + 1, l),
    ) <= HEARTBEAT_TOOL_ROUNDS by {
        lemma_calls_since_start(cycles, events, actions, k, l);
        lemma_run_prefix(cycles, events, actions, 0, l);
    }
}
} // verus!
