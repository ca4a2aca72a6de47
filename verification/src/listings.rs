//! The plain-text replies to `/tasks` and `/reminders`.

use vstd::prelude::*;
use crate::text::{decimal, join, join_seq, push_str, to_owned, u64_to_decimal};

verus! {

/// A pending heartbeat task, as `/tasks` lists it.
pub struct TaskEntry {
    pub id: String,
    pub description: String,
}

/// A pending reminder, as `/reminders` lists it.
pub struct ReminderEntry {
    pub id: String,
    pub description: String,
    pub trigger_at: String,
    /// Whether the reminder carries an action for the assistant.
    pub has_action: bool,
}

/// The line of task number `i` (from 0).
pub open spec fn task_line(i: nat, t: TaskEntry) -> Seq<char> {
    decimal(i + 1) + ". `"@ + t.id@ + "` — "@ + t.description@
}

/// The `/tasks` reply.
pub open spec fn spec_tasks_text(tasks: Seq<TaskEntry>) -> Seq<char> {
    if tasks.len() == 0 {
        "No pending tasks for this chat."@
    } else {
        join_seq(
            seq!["*"@ + decimal(tasks.len()) + " pending task(s):*"@] + Seq::new(
                tasks.len(),
                |i: int| task_line(i as nat, tasks[i]),
            ),
            "\n"@,
        )
    }
}

/// The line of reminder number `i` (from 0).
pub open spec fn reminder_line(i: nat, r: ReminderEntry) -> Seq<char> {
    decimal(i + 1) + ". `"@ + r.id@ + "` — "@ + r.description@ + " @ "@ + r.trigger_at@ + if r.has_action {
        " [has action]"@
    } else {
        ""@
    }
}

/// The `/reminders` reply.
pub open spec fn spec_reminders_text(reminders: Seq<ReminderEntry>) -> Seq<char> {
    if reminders.len() == 0 {
        "No pending reminders for this chat."@
    } else {
        join_seq(
            seq!["*"@ + decimal(reminders.len()) + " pending reminder(s):*"@] + Seq::new(
                reminders.len(),
                |i: int| reminder_line(i as nat, reminders[i]),
            ),
            "\n"@,
        )
    }
}

fn task_line_exec(i: usize, t: &TaskEntry) -> (r: String)
    requires
        i < usize::MAX,
    ensures
        r@ == task_line(i as nat, *t),
{
    let mut out = u64_to_decimal((i + 1) as u64);
    push_str(&mut out, ". `");
    push_str(&mut out, t.id.as_str());
    push_str(&mut out, "` — ");
    push_str(&mut out, t.description.as_str());
    out
}

fn reminder_line_exec(i: usize, r: &ReminderEntry) -> (s: String)
    requires
        i < usize::MAX,
    ensures
        s@ == reminder_line(i as nat, *r),
{
    let mut out = u64_to_decimal((i + 1) as u64);
    push_str(&mut out, ". `");
    push_str(&mut out, r.id.as_str());
    push_str(&mut out, "` — ");
    push_str(&mut out, r.description.as_str());
    push_str(&mut out, " @ ");
    push_str(&mut out, r.trigger_at.as_str());
    if r.has_action {
        push_str(&mut out, " [has action]");
    } else {
        proof {
            reveal_strlit("");
        }
        assert(out@ =~= out@ + ""@);
    }
    out
}

fn header(n: usize, tail: &str) -> (r: String)
    ensures
        r@ == "*"@ + decimal(n as nat) + tail@,
{
    let mut h = to_owned("*");
    let count = u64_to_decimal(n as u64);
    push_str(&mut h, count.as_str());
    push_str(&mut h, tail);
    h
}

/// The `/tasks` reply.
pub fn tasks_text(tasks: &Vec<TaskEntry>) -> (r: String)
    ensures
        r@ == spec_tasks_text(tasks@),
{
    let n = tasks.len();
    if n == 0 {
        return to_owned("No pending tasks for this chat.");
    }
    let h = header(n, " pending task(s):*");
    let ghost hv = h@;
    let mut lines: Vec<String> = Vec::new();
    lines.push(h);
    let mut i: usize = 0;
    proof {
        assert(lines@.map_values(|s: String| s@) =~= seq![hv] + Seq::new(
            0,
            |k: int| task_line(k as nat, tasks@[k]),
        ));
    }
    while i < n
        invariant
            n == tasks@.len(),
            i <= n,
            lines@.map_values(|s: String| s@) == seq![hv] + Seq::new(
                i as nat,
                |k: int| task_line(k as nat, tasks@[k]),
            ),
        decreases n - i,
    {
        let line = task_line_exec(i, &tasks[i]);
        let ghost before = lines@.map_values(|s: String| s@);
        lines.push(line);
        assert(lines@.map_values(|s: String| s@) =~= before.push(task_line(i as nat, tasks@[i as int])));
        assert(Seq::new((i + 1) as nat, |k: int| task_line(k as nat, tasks@[k])) =~= Seq::new(
            i as nat,
            |k: int| task_line(k as nat, tasks@[k]),
        ).push(task_line(i as nat, tasks@[i as int])));
        i += 1;
    }
    join(&lines, "\n")
}

/// The `/reminders` reply.
pub fn reminders_text(reminders: &Vec<ReminderEntry>) -> (r: String)
    ensures
        r@ == spec_reminders_text(reminders@),
{
    let n = reminders.len();
    if n == 0 {
        return to_owned("No pending reminders for this chat.");
    }
    let h = header(n, " pending reminder(s):*");
    let ghost hv = h@;
    let mut lines: Vec<String> = Vec::new();
    lines.push(h);
    let mut i: usize = 0;
    proof {
        assert(lines@.map_values(|s: String| s@) =~= seq![hv] + Seq::new(
            0,
            |k: int| reminder_line(k as nat, reminders@[k]),
        ));
    }
    while i < n
        invariant
            n == reminders@.len(),
            i <= n,
            lines@.map_values(|s: String| s@) == seq![hv] + Seq::new(
                i as nat,
                |k: int| reminder_line(k as nat, reminders@[k]),
            ),
        decreases n - i,
    {
        let line = reminder_line_exec(i, &reminders[i]);
        let ghost before = lines@.map_values(|s: String| s@);
        lines.push(line);
        assert(lines@.map_values(|s: String| s@) =~= before.push(
            reminder_line(i as nat, reminders@[i as int]),
        ));
        assert(Seq::new((i + 1) as nat, |k: int| reminder_line(k as nat, reminders@[k])) =~= Seq::new(
            i as nat,
            |k: int| reminder_line(k as nat, reminders@[k]),
        ).push(reminder_line(i as nat, reminders@[i as int])));
        i += 1;
    }
    join(&lines, "\n")
}


/// The `/tasks` listing counts the tasks in its first line and has the line
/// of every task, numbered from 1 with its ID and description.
pub proof fn lemma_tasks_listed(tasks: Seq<TaskEntry>)
    ensures
        tasks.len() == 0 ==> spec_tasks_text(tasks) == "No pending tasks for this chat."@,
        tasks.len() > 0 ==> crate::text::has_prefix(
            spec_tasks_text(tasks),
            "*"@ + decimal(tasks.len()) + " pending task(s):*"@,
        ),
        forall|k: int|
            0 <= k < tasks.len() ==> crate::text::contains_seq(
                spec_tasks_text(tasks),
                decimal((k + 1) as nat) + ". `"@ + (#[trigger] tasks[k]).id@ + "` — "@
                    + tasks[k].description@,
            ),
{
    if tasks.len() > 0 {
        let parts = seq!["*"@ + decimal(tasks.len()) + " pending task(s):*"@] + Seq::new(
            tasks.len(),
            |i: int| task_line(i as nat, tasks[i]),
        );
        crate::text::lemma_join_has_parts(parts, "\n"@);
        assert forall|k: int| 0 <= k < tasks.len() implies crate::text::contains_seq(
            spec_tasks_text(tasks),
            decimal((k + 1) as nat) + ". `"@ + (#[trigger] tasks[k]).id@ + "` — "@
                + tasks[k].description@,
        ) by {
            assert(parts[k + 1] == task_line(k as nat, tasks[k]));
        }
    }
}

/// The `/reminders` listing counts the reminders in its first line and has
/// the line of every reminder, numbered from 1 with its ID, description and
/// time, marked `[has action]` exactly when it carries an action.
pub proof fn lemma_reminders_listed(reminders: Seq<ReminderEntry>)
    ensures
        reminders.len() == 0 ==> spec_reminders_text(reminders)
            == "No pending reminders for this chat."@,
        reminders.len() > 0 ==> crate::text::has_prefix(
            spec_reminders_text(reminders),
            "*"@ + decimal(reminders.len()) + " pending reminder(s):*"@,
        ),
        forall|k: int|
            0 <= k < reminders.len() ==> crate::text::contains_seq(
                spec_reminders_text(reminders),
                decimal((k + 1) as nat) + ". `"@ + (#[trigger] reminders[k]).id@ + "` — "@
                    + reminders[k].description@ + " @ "@ + reminders[k].trigger_at@ + if reminders[k].has_action {
                    " [has action]"@
                } else {
                    Seq::empty()
                },
            ),
{
    reveal_strlit("");
    assert(""@ =~= Seq::<char>::empty());
    if reminders.len() > 0 {
        let parts = seq!["*"@ + decimal(reminders.len()) + " pending reminder(s):*"@] + Seq::new(
            reminders.len(),
            |i: int| reminder_line(i as nat, reminders[i]),
        );
        crate::text::lemma_join_has_parts(parts, "\n"@);
        assert forall|k: int| 0 <= k < reminders.len() implies crate::text::contains_seq(
            spec_reminders_text(reminders),
            decimal((k + 1) as nat) + ". `"@ + (#[trigger] reminders[k]).id@ + "` — "@
                + reminders[k].description@ + " @ "@ + reminders[k].trigger_at@ + if reminders[k].has_action {
                " [has action]"@
            } else {
                Seq::empty()
            },
        ) by {
            assert(parts[k + 1] == reminder_line(k as nat, reminders[k]));
        }
    }
}
} // verus!
