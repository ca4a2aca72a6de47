use base64::Engine;
use glowbot::codex::{codex_endpoint, sse_data};
use glowbot::codex_auth::{account_id, expires_after, token_valid_for, TokenError};
use glowbot::ids::{short_id, to_lower_hex};
use glowbot::models::model_info;

fn jwt(exp: i64, account: &str) -> String {
    let encode =
        |text: String| base64::engine::general_purpose::URL_SAFE_NO_PAD.encode(text.as_bytes());
    format!(
        "{}.{}.signature",
        encode("{\"alg\":\"none\"}".to_string()),
        encode(format!(
            "{{\"exp\":{},\"https://api.openai.com/auth\":{{\"chatgpt_account_id\":\"{}\"}}}}",
            exp, account
        ))
    )
}

#[test]
fn helpers_handle_sse_urls_jwts_and_models() {
    assert_eq!(
        codex_endpoint("https://example.test/api"),
        "https://example.test/api/codex/responses"
    );
    assert_eq!(
        codex_endpoint("https://example.test/codex"),
        "https://example.test/codex/responses"
    );
    assert_eq!(
        codex_endpoint("https://example.test/codex/responses/"),
        "https://example.test/codex/responses"
    );
    assert_eq!(
        sse_data("data: {\"a\":1}\r\n\r\ndata: [DONE]\r\n\r\n").len(),
        2
    );

    let token = jwt(chrono::Utc::now().timestamp() + 1000, "acct");
    assert_eq!(account_id(&token).unwrap(), "acct");
    assert!(token_valid_for(&token, 10).unwrap());
    assert!(account_id("not-a-jwt").is_err());

    let info = model_info("gpt-5.6-luna");
    assert_eq!(info.context_length, 372_000);
    assert!(info.supports_modality("image"));
    let spark = model_info("gpt-5.3-codex-spark");
    assert_eq!(spark.context_length, 128_000);
    assert!(!spark.supports_modality("image"));

    let unknown = model_info("future-codex-model");
    assert_eq!(unknown.context_length, 0);
    assert!(!unknown.supports_modality("image"));
    assert!(!unknown.supports_modality("audio"));
}

#[test]
fn token_errors_name_what_is_wrong() {
    assert_eq!(account_id("not-a-jwt"), Err(TokenError::NotJwt));
    assert_eq!(account_id("a.!!!.c"), Err(TokenError::BadEncoding));
    let not_json = base64::engine::general_purpose::URL_SAFE_NO_PAD.encode(b"not json");
    assert_eq!(account_id(&format!("a.{}.c", not_json)), Err(TokenError::BadPayload));
    let no_claim = base64::engine::general_purpose::URL_SAFE_NO_PAD.encode(b"{\"exp\":5}");
    assert_eq!(account_id(&format!("a.{}.c", no_claim)), Err(TokenError::NoAccountId));
    let no_exp = base64::engine::general_purpose::URL_SAFE_NO_PAD.encode(b"{\"x\":1}");
    assert_eq!(token_valid_for(&format!("a.{}.c", no_exp), 10), Err(TokenError::NoExpiry));
    assert_eq!(
        TokenError::NotJwt.message(),
        "Codex access token is not a JWT"
    );
    let other_member = base64::engine::general_purpose::URL_SAFE_NO_PAD
        .encode(b"{\"https://api.openai.com/auth\":{\"user\":\"u\",\"chatgpt_account_id\":7}}");
    assert_eq!(account_id(&format!("a.{}.c", other_member)), Err(TokenError::NoAccountId));
    let text_exp = base64::engine::general_purpose::URL_SAFE_NO_PAD.encode(b"{\"exp\":\"soon\"}");
    assert_eq!(token_valid_for(&format!("a.{}.c", text_exp), 10), Err(TokenError::NoExpiry));
    assert_eq!(TokenError::ClockBeforeEpoch.message(), "system time before Unix epoch");
    assert_eq!(
        TokenError::NoAccountId.message(),
        "Codex access token has no ChatGPT account ID"
    );
}

#[test]
fn expired_tokens_are_not_valid() {
    let token = jwt(chrono::Utc::now().timestamp() - 1, "acct");
    assert!(!token_valid_for(&token, 0).unwrap());
    let soon = jwt(chrono::Utc::now().timestamp() + 100, "acct");
    assert!(!token_valid_for(&soon, 300).unwrap());
    assert!(expires_after(1000, 900, 99));
    assert!(!expires_after(1000, 900, 100));
    assert!(expires_after(i64::MAX, i64::MAX as u64, -1));
    assert!(!expires_after(i64::MIN, u64::MAX, i64::MAX));
    assert!(expires_after(5, 0, i64::MIN));
}

#[test]
fn test_short_id_non_empty() {
    let id = short_id();
    assert!(!id.is_empty());
}

#[test]
fn test_short_id_unique() {
    let id1 = short_id();
    let id2 = short_id();
    assert_ne!(id1, id2);
}

#[test]
fn test_short_id_is_hex() {
    let id = short_id();
    assert!(id.chars().all(|c| c.is_ascii_hexdigit()));
}

#[test]
fn lower_hex_matches_format() {
    assert_eq!(to_lower_hex(0), "0");
    assert_eq!(to_lower_hex(255), "ff");
    assert_eq!(to_lower_hex(0x1234abcd), format!("{:x}", 0x1234abcdu128));
    assert_eq!(to_lower_hex(u128::MAX), format!("{:x}", u128::MAX));
}
