use glowbot::models::{detail_cb, select_cb};
use glowbot::todos::truncate_button_label;

#[test]
fn test_detail_cb_short_id_uses_full_prefix() {
    let id = "openai/gpt-4";
    let cb = detail_cb(id);
    assert_eq!(cb, "model:detail:openai/gpt-4");
}

#[test]
fn test_detail_cb_long_id_uses_short_prefix() {
    let id = "a".repeat(52);
    let cb = detail_cb(&id);
    assert!(cb.starts_with("d:"));
    assert!(!cb.starts_with("model:detail:"));
    assert!(cb.len() <= 64);
}

#[test]
fn test_select_cb_short_id_uses_full_prefix() {
    let id = "openai/gpt-4";
    let cb = select_cb(id);
    assert_eq!(cb, "model:select:openai/gpt-4");
}

#[test]
fn test_select_cb_long_id_uses_short_prefix() {
    let id = "a".repeat(52);
    let cb = select_cb(&id);
    assert!(cb.starts_with("s:"));
    assert!(!cb.starts_with("model:select:"));
    assert!(cb.len() <= 64);
}

#[test]
fn test_truncate_button_label_short() {
    assert_eq!(truncate_button_label("hello"), "hello");
}

#[test]
fn test_truncate_button_label_long() {
    let long = "a".repeat(80);
    let result = truncate_button_label(&long);
    assert!(result.len() <= 63);
    assert!(result.ends_with('…'));
}

#[test]
fn test_truncate_button_label_emoji_boundary() {
    let text = "😀".repeat(20);
    let result = truncate_button_label(&text);
    assert!(result.len() <= 63);
}

#[test]
fn truncate_button_label_keeps_59_bytes_then_ellipsis() {
    let long = "a".repeat(80);
    assert_eq!(truncate_button_label(&long), format!("{}…", "a".repeat(59)));
    // 14 emojis take 56 bytes; a fifteenth would pass 59
    let text = "😀".repeat(20);
    assert_eq!(truncate_button_label(&text), format!("{}…", "😀".repeat(14)));
    // 62 bytes still fit as they are
    let edge = "b".repeat(62);
    assert_eq!(truncate_button_label(&edge), edge);
}
