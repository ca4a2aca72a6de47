use glowbot::listings::{reminders_text, tasks_text, ReminderEntry, TaskEntry};

#[test]
fn task_listing() {
    assert_eq!(tasks_text(&vec![]), "No pending tasks for this chat.");
    let tasks = vec![
        TaskEntry { id: "a1".into(), description: "check mail".into() },
        TaskEntry { id: "b2".into(), description: "water plants".into() },
    ];
    assert_eq!(
        tasks_text(&tasks),
        "*2 pending task(s):*\n1. `a1` — check mail\n2. `b2` — water plants"
    );
}

#[test]
fn reminder_listing() {
    assert_eq!(reminders_text(&vec![]), "No pending reminders for this chat.");
    let reminders = vec![
        ReminderEntry {
            id: "r1".into(),
            description: "stand up".into(),
            trigger_at: "2026-05-11T18:00:00Z".into(),
            has_action: false,
        },
        ReminderEntry {
            id: "r2".into(),
            description: "report".into(),
            trigger_at: "2026-05-12T09:00:00Z".into(),
            has_action: true,
        },
    ];
    assert_eq!(
        reminders_text(&reminders),
        "*2 pending reminder(s):*\n1. `r1` — stand up @ 2026-05-11T18:00:00Z\n2. `r2` — report @ 2026-05-12T09:00:00Z [has action]"
    );
}
