use glowbot::codex_reply::{codex_reply, completed_response, OutputItem, OutputPart, UsageCounts};

fn item(kind: &str) -> OutputItem {
    OutputItem {
        kind: Some(kind.into()),
        content: vec![],
        summary: vec![],
        call_id: None,
        id: None,
        name: None,
        arguments: None,
        raw: format!("{{\"type\":\"{}\"}}", kind),
    }
}

fn usage(i: Option<u64>, o: Option<u64>, t: Option<u64>) -> UsageCounts {
    UsageCounts { input_tokens: i, output_tokens: o, total_tokens: t }
}

#[test]
fn reads_text_of_output_messages() {
    let mut msg = item("message");
    msg.content = vec![
        OutputPart { kind: Some("output_text".into()), text: Some("Hello ".into()) },
        OutputPart { kind: Some("refusal".into()), text: Some("no".into()) },
        OutputPart { kind: Some("output_text".into()), text: Some("from Codex".into()) },
    ];
    let r = codex_reply(&vec![msg], &usage(Some(10), Some(6), None)).unwrap();
    assert_eq!(r.text, "Hello from Codex");
    assert!(r.tool_calls.is_none());
    assert!(r.reasoning.is_none());
    assert!(r.provider_items.is_none());
    assert_eq!(r.finish_reason, "stop");
    assert_eq!((r.prompt_tokens, r.completion_tokens, r.total_tokens), (10, 6, 16));
}

#[test]
fn reads_tool_calls_and_provider_state() {
    let mut reasoning = item("reasoning");
    reasoning.summary = vec![Some("Need a tool".into())];
    let mut call = item("function_call");
    call.id = Some("fc_1".into());
    call.call_id = Some(Some("call_1".into()));
    call.name = Some("bash".into());
    call.arguments = Some("{\"command\":\"pwd\"}".into());
    let r = codex_reply(&vec![reasoning, call], &usage(Some(20), Some(5), None)).unwrap();
    assert_eq!(r.reasoning.as_deref(), Some("Need a tool"));
    let calls = r.tool_calls.unwrap();
    assert_eq!(calls.len(), 1);
    assert_eq!(calls[0].id, "call_1");
    assert_eq!(calls[0].call_type, "function");
    assert_eq!(calls[0].function.name, "bash");
    assert_eq!(calls[0].function.arguments, "{\"command\":\"pwd\"}");
    assert_eq!(r.provider_items.unwrap().len(), 2);
    assert_eq!(r.finish_reason, "tool_calls");
    assert_eq!(r.total_tokens, 25);
    assert_eq!(r.text, "");
}

#[test]
fn function_calls_need_an_id_and_a_name() {
    let mut call = item("function_call");
    call.id = Some("fc_9".into());
    call.name = None;
    assert_eq!(
        codex_reply(&vec![call], &usage(None, None, None)).err(),
        Some("Codex function call has no name".to_string())
    );
    let mut call = item("function_call");
    call.id = Some("fc_9".into());
    call.call_id = Some(None);
    call.name = Some("bash".into());
    assert_eq!(
        codex_reply(&vec![call], &usage(None, None, None)).err(),
        Some("Codex function call has no call_id".to_string())
    );
    let mut call = item("function_call");
    call.id = Some("fc_9".into());
    call.name = Some("bash".into());
    let r = codex_reply(&vec![call], &usage(None, None, Some(3))).unwrap();
    let calls = r.tool_calls.unwrap();
    assert_eq!(calls[0].id, "fc_9");
    assert_eq!(calls[0].function.arguments, "{}");
    assert_eq!((r.prompt_tokens, r.completion_tokens, r.total_tokens), (0, 0, 3));
}

#[test]
fn stream_errors_are_reported() {
    let failed = completed_response("data: {\"type\":\"response.failed\",\"error\":{}}\n\n").unwrap_err();
    assert!(failed.starts_with("Codex response failed: "));
    assert!(failed.contains("response.failed"));
    assert_eq!(
        completed_response("data: [DONE]\n\n"),
        Err("Codex stream ended without a completed response".to_string())
    );
    assert_eq!(
        completed_response("data: not json\n\n"),
        Err("Invalid JSON in Codex event: not json".to_string())
    );
}

#[test]
fn stream_yields_the_completed_response() {
    let body = "data: {\"type\":\"response.created\"}\r\n\r\n\
                data: {\"type\":\"response.completed\",\"response\":{\"output\":[]}}\r\n\r\n\
                data: [DONE]\r\n\r\n";
    let r = completed_response(body).unwrap();
    let v: serde_json::Value = serde_json::from_str(&r).unwrap();
    assert!(v["output"].as_array().unwrap().is_empty());
    let incomplete = "data: {\"type\":\"response.incomplete\",\"response\":{\"id\":\"r1\"}}\n\n";
    assert!(completed_response(incomplete).unwrap().contains("r1"));
}
