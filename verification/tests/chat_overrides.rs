use glowbot::commands::model_reset_text;
use glowbot::config::{basic_config, LlmProvider};
use glowbot::overrides::{ChatOverrides, StopSignals};

#[test]
fn overrides_last_until_reset() {
    let config = basic_config();
    let default = config.model_for_chat("-123").to_string();
    let mut o = ChatOverrides::new();
    assert_eq!(o.effective_model(&config, "-123"), default);
    o.set_model("-123", "override/model".into());
    assert!(o.has_model_override("-123"));
    assert_eq!(o.effective_model(&config, "-123"), "override/model");
    assert_eq!(o.effective_model(&config, "-999"), config.model_for_chat("-999"));
    o.reset("-123");
    assert!(!o.has_model_override("-123"));
    assert_eq!(o.effective_model(&config, "-123"), default);
    assert!(model_reset_text(&o.effective_model(&config, "-123")).contains("Model reset to config default"));
}

#[test]
fn provider_override_uses_its_default_model() {
    let config = basic_config();
    let mut o = ChatOverrides::new();
    o.set_provider("-123", LlmProvider::Codex);
    assert_eq!(o.effective_provider(&config, "-123"), LlmProvider::Codex);
    assert_eq!(
        o.effective_model(&config, "-123"),
        config.default_model_for_provider(LlmProvider::Codex)
    );
    o.reset("-123");
    assert_eq!(o.effective_provider(&config, "-123"), config.provider_for_chat("-123"));
}

#[test]
fn back_returns_to_the_last_browse_page() {
    let mut o = ChatOverrides::new();
    assert_eq!(o.back_target("-1"), None);
    o.remember_browse("-1", "model:browse:newest:0".into());
    o.remember_browse("-1", "model:browse:free:2".into());
    assert_eq!(o.back_target("-1"), Some("model:browse:free:2".to_string()));
    assert_eq!(o.back_target("-2"), None);
}

#[test]
fn stop_signals_reach_running_work() {
    let mut s = StopSignals::new();
    s.request_stop("-1");
    assert!(!s.is_stopped("-1"));
    s.begin("-1");
    assert!(!s.is_stopped("-1"));
    s.request_stop("-1");
    assert!(s.is_stopped("-1"));
    assert!(!s.is_stopped("-2"));
    s.begin("-1");
    assert!(!s.is_stopped("-1"));
}
