use glowbot::specifiers::{
    apply_specifier, is_valid_specifier, model_command_step, proposed_model, split_specifier,
    ModelCommand,
};

#[test]
fn specifiers_are_recognised() {
    assert!(is_valid_specifier("nitro"));
    assert!(is_valid_specifier("floor"));
    assert!(is_valid_specifier("free"));
    assert!(!is_valid_specifier("fast"));
    assert!(!is_valid_specifier(":nitro"));
}

#[test]
fn model_info_splits_known_specifier() {
    assert_eq!(
        split_specifier("openai/gpt-4o:nitro"),
        ("openai/gpt-4o".to_string(), Some("nitro".to_string()))
    );
    assert_eq!(split_specifier("openai/gpt-4o:unknown"), ("openai/gpt-4o:unknown".to_string(), None));
    assert_eq!(split_specifier("openai/gpt-4o"), ("openai/gpt-4o".to_string(), None));
}

#[test]
fn applying_replaces_a_specifier() {
    assert_eq!(apply_specifier("test/model", "nitro"), "test/model:nitro");
    assert_eq!(apply_specifier("test/model:free", "nitro"), "test/model:nitro");
    assert_eq!(apply_specifier("a/b:c", "floor"), "a/b:c:floor");
}

#[test]
fn proposal_needs_an_argument() {
    let r = proposed_model(None, None, "test/model").unwrap_err();
    assert!(r.contains("at least one"));
    assert_eq!(r, "Error: at least one of model_id or specifier is required.");
}

#[test]
fn proposal_rejects_unknown_specifier() {
    let r = proposed_model(None, Some("invalid"), "test/model").unwrap_err();
    assert!(r.contains("unknown specifier"));
    assert_eq!(r, "Error: unknown specifier ':invalid'. Valid specifiers: :nitro, :floor, :free");
    let r = proposed_model(Some("openai/gpt-4o"), Some("bad"), "test/model").unwrap_err();
    assert!(r.contains("unknown specifier"));
}

#[test]
fn proposal_same_as_current_changes_nothing() {
    let r = proposed_model(Some("test/model"), None, "test/model").unwrap_err();
    assert!(r.contains("already the active model"));
    assert_eq!(
        r,
        "The proposed model 'test/model' is already the active model for this chat. No change needed."
    );
}

#[test]
fn proposal_builds_the_model() {
    assert_eq!(proposed_model(Some("openai/gpt-4o"), None, "test/model"), Ok("openai/gpt-4o".to_string()));
    assert_eq!(
        proposed_model(Some("openai/gpt-4o"), Some("floor"), "test/model"),
        Ok("openai/gpt-4o:floor".to_string())
    );
    assert_eq!(proposed_model(None, Some("free"), "test/model:nitro"), Ok("test/model:free".to_string()));
}

#[test]
fn model_command_applies_specifiers() {
    assert_eq!(
        model_command_step(":nitro", "test/model:free", true),
        ModelCommand::SetOverride {
            model: "test/model:nitro".to_string(),
            reply: "✅ Model set to `test/model:nitro` (specifier `:nitro` applied)".to_string(),
        }
    );
    match model_command_step(":floor", "test/model", true) {
        ModelCommand::SetOverride { model, reply } => {
            assert_eq!(model, "test/model:floor");
            assert!(reply.contains("Model set to"));
        }
        other => panic!("unexpected {:?}", other),
    }
}

#[test]
fn model_command_rejects_unknown_specifier() {
    match model_command_step(":fast", "test/model", true) {
        ModelCommand::Reply(t) => {
            assert!(t.contains("Unknown specifier"));
            assert!(t.contains(":nitro") && t.contains(":floor") && t.contains(":free"));
            assert_eq!(t, "Unknown specifier `:fast`. Valid specifiers: `:nitro`, `:floor`, `:free`");
        }
        other => panic!("unexpected {:?}", other),
    }
}

#[test]
fn model_command_specifier_needs_openrouter() {
    match model_command_step(":nitro", "gpt-5.4", false) {
        ModelCommand::Reply(t) => assert!(t.contains("only available with OpenRouter")),
        other => panic!("unexpected {:?}", other),
    }
}

#[test]
fn model_command_sets_a_model_directly() {
    assert_eq!(
        model_command_step("google/gemini-2.5-pro:nitro", "test/model", true),
        ModelCommand::SetOverride {
            model: "google/gemini-2.5-pro:nitro".to_string(),
            reply: "✅ Model set to `google/gemini-2.5-pro:nitro`".to_string(),
        }
    );
}

#[test]
fn unknown_specifier_is_named_whatever_the_provider() {
    assert_eq!(
        model_command_step(":fast", "gpt-5.4", false),
        ModelCommand::Reply("Unknown specifier `:fast`. Valid specifiers: `:nitro`, `:floor`, `:free`".to_string())
    );
}
