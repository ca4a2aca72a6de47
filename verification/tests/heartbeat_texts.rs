use glowbot::heartbeat::{
    next_untried_task, reminder_failure, reminder_notice, reminder_prompt, task_failure,
    task_prompt,
};

#[test]
fn the_next_task_is_the_first_untried() {
    let ids = vec!["t1".to_string(), "t2".to_string(), "t3".to_string()];
    assert_eq!(next_untried_task(&ids, &vec![]), Some(0));
    assert_eq!(next_untried_task(&ids, &vec!["t1".to_string()]), Some(1));
    assert_eq!(
        next_untried_task(&ids, &vec!["t2".to_string(), "t1".to_string()]),
        Some(2)
    );
    assert_eq!(
        next_untried_task(&ids, &vec!["t3".to_string(), "t2".to_string(), "t1".to_string()]),
        None
    );
    assert_eq!(next_untried_task(&vec![], &vec![]), None);
}

#[test]
fn reminder_and_task_messages() {
    assert_eq!(reminder_notice("stretch"), "⏰ Reminder: stretch");
    assert_eq!(
        reminder_failure("stretch", "timeout"),
        "⏰ Reminder: stretch\n⚠️ Action failed: LLM error — timeout"
    );
    assert_eq!(
        task_failure("a1", "timeout"),
        "⚠️ Task 'a1' failed: LLM error — timeout"
    );
}

#[test]
fn reminder_prompt_matches_the_template() {
    let description = "water plants";
    let action = "check the soil sensor";
    let date = "2024-05-01";
    let expected = format!(
        "## Reminder Triggered\n\
        A reminder you created has fired.\n\
        Reminder: {description}\n\
        Action to perform: {action}\n\
        Instructions:\n\
        - Perform the action described above using your available tools.\n\
        - When done, send ONE message to the chat with the results using send_message.\n\
        - The reminder will be automatically removed after you finish. Do NOT call remove_reminder yourself.\n\
        - Include the reminder context ('⏰ Reminder: {description}') in your message to the user.\n\
        Current date: {date}",
        description = description,
        action = action,
        date = date,
    );
    assert_eq!(reminder_prompt(description, action, date), expected);
}

#[test]
fn task_prompt_matches_the_template() {
    let task_desc = "download the report";
    let task_id = "x9";
    let date = "2024-05-01";
    let expected = format!(
        "## Background Task\n\
        You are processing a scheduled task for this chat.\n\
        Task: {task_desc}\n\
        Instructions:\n\
        - Use your available tools to complete the task.\n\
        - When done, call remove_task(\"{task_id}\") to mark it complete.\n\
        - If the task spawns follow-up work, call add_task(\"...\") for each.\n\
        - If the task cannot be completed yet (e.g. download still in progress, waiting for external event),\n\
          just leave it — do NOT remove it, do NOT add a new identical one. It will automatically run again next cycle.\n\
        - You may send at most ONE message to the chat to report completion or deliver results, using the send_message tool. Do NOT spam progress updates.\n\
        - If the task has already been completed (e.g. file already downloaded, action already performed, nothing left to do),\n\
          quietly call remove_task(\"{task_id}\") and exit — do NOT send any message.\n\
        Current date: {date}",
        task_desc = task_desc,
        task_id = task_id,
        date = date,
    );
    assert_eq!(task_prompt(task_desc, task_id, date), expected);
}
