use glowbot::approvals::{approval_buttons, parse_approval_callback};
use glowbot::config::basic_config;
use glowbot::config_proposal::{change_proposal, keep_secrets};

#[test]
fn an_unchanged_config_makes_no_proposal() {
    assert_eq!(change_proposal("a: 1\nb: 2\n", "a: 1\nb: 2\n"), None);
}

#[test]
fn a_changed_config_is_shown_as_a_diff() {
    let text = change_proposal("a: 1\nb: 2\n", "a: 1\nb: 3\n").unwrap();
    assert_eq!(
        text,
        "⚙️ *Config Change Proposal*\n\n```diff\na: 1\n-b: 2\n+b: 3\n```"
    );
}

#[test]
fn proposals_keep_the_current_secrets() {
    let current = basic_config();
    let mut proposed = basic_config();
    proposed.telegram_token = "stolen".into();
    proposed.openrouter.api_key = String::new();
    proposed.openrouter.model = "other/model".into();
    proposed.heartbeat_interval_minutes = 5;
    keep_secrets(&mut proposed, &current);
    assert_eq!(proposed.telegram_token, "test-token");
    assert_eq!(proposed.openrouter.api_key, "test-key");
    assert_eq!(proposed.openrouter.model, "other/model");
    assert_eq!(proposed.heartbeat_interval_minutes, 5);
}

#[test]
fn approval_buttons_read_back() {
    let row = approval_buttons("cfg", "18f3a");
    assert_eq!(row.len(), 2);
    assert_eq!(row[0].label, "✅ Accept");
    assert_eq!(row[0].data, "cfg:18f3a:accept");
    assert_eq!(row[1].label, "❌ Deny");
    assert_eq!(row[1].data, "cfg:18f3a:deny");
    assert_eq!(
        parse_approval_callback(&row[0].data, "cfg"),
        Some(("18f3a".to_string(), "accept".to_string()))
    );
    assert_eq!(
        parse_approval_callback(&row[1].data, "cfg"),
        Some(("18f3a".to_string(), "deny".to_string()))
    );
}
