//! What the Codex client reads out of a ChatGPT access token: the account ID
//! and whether the token is still valid for a while.

use vstd::prelude::*;
use crate::callbacks::{nth_piece, nth_piece_exec};
use crate::ids::{duration_secs, since_unix_epoch, system_now};
use crate::text::{is_first_index, lemma_split_once_at, to_owned};

verus! {

/// What `base64::engine::general_purpose::URL_SAFE_NO_PAD.decode` returns for
/// `input`: the decoded bytes, or `None` when it reports an error.
pub uninterp spec fn base64_url_decode(input: Seq<char>) -> Option<Seq<u8>>;

/// Whether `serde_json::from_slice::<serde_json::Value>` accepts `bytes`.
pub uninterp spec fn json_accepts(bytes: Seq<u8>) -> bool;

/// The string that the JSON text `json` holds under the member names `path`,
/// looked up one after another (`None` when the text is not JSON, a member
/// is missing or the value found is not a string).
pub uninterp spec fn json_str_at(json: Seq<u8>, path: Seq<Seq<char>>) -> Option<Seq<char>>;

/// The integer that the JSON text `json` holds under the member names
/// `path`, when it fits in an `i64` (`None` otherwise, as for
/// [`json_str_at`]).
pub uninterp spec fn json_i64_at(json: Seq<u8>, path: Seq<Seq<char>>) -> Option<i64>;

/// Decode URL-safe Base64 without padding.
///
/// Calls `base64::Engine::decode` on the `URL_SAFE_NO_PAD` engine and drops
/// the error; the contract only names the result, which depends on the input
/// alone.
#[verifier::external_body]
fn decode_url_safe(input: &str) -> (r: Option<Vec<u8>>)
    ensures
        match r {
            Some(v) => base64_url_decode(input@) == Some(v@),
            None => base64_url_decode(input@) is None,
        },
{
    base64::Engine::decode(&base64::engine::general_purpose::URL_SAFE_NO_PAD, input).ok()
}

/// Whether `bytes` is JSON text.
///
/// Calls `serde_json::from_slice::<serde_json::Value>`; the contract names
/// whether it succeeds, which depends on the bytes alone.
#[verifier::external_body]
pub(crate) fn json_parses(bytes: &[u8]) -> (r: bool)
    ensures
        r == json_accepts(bytes@),
{
    serde_json::from_slice::<serde_json::Value>(bytes).is_ok()
}

/// The string under the member names `path` of the JSON text `json`.
///
/// Calls `serde_json::from_slice`, then `serde_json::Value::get` for each
/// name and `serde_json::Value::as_str` on what it reaches; the contract
/// names the result, which depends on the arguments alone.
#[verifier::external_body]
pub(crate) fn str_at(json: &[u8], path: &Vec<String>) -> (r: Option<String>)
    ensures
        match r {
            Some(s) => json_str_at(json@, path@.map_values(|p: String| p@)) == Some(s@),
            None => json_str_at(json@, path@.map_values(|p: String| p@)) is None,
        },
{
    let root: serde_json::Value = serde_json::from_slice(json).ok()?;
    let mut value = &root;
    for key in path {
        value = value.get(key.as_str())?;
    }
    value.as_str().map(|s| s.to_string())
}

/// The `i64` under the member names `path` of the JSON text `json`.
///
/// Calls `serde_json::from_slice`, then `serde_json::Value::get` for each
/// name and `serde_json::Value::as_i64` on what it reaches; the contract
/// names the result, which depends on the arguments alone.
#[verifier::external_body]
fn i64_at(json: &[u8], path: &Vec<String>) -> (r: Option<i64>)
    ensures
        r == json_i64_at(json@, path@.map_values(|p: String| p@)),
{
    let root: serde_json::Value = serde_json::from_slice(json).ok()?;
    let mut value = &root;
    for key in path {
        value = value.get(key.as_str())?;
    }
    value.as_i64()
}

/// Why a token could not be read.
#[derive(Clone, Copy, Debug, PartialEq, Eq, Structural)]
pub enum TokenError {
    /// The token has no second `.`-separated segment.
    NotJwt,
    /// The payload segment is not URL-safe Base64.
    BadEncoding,
    /// The payload is not JSON.
    BadPayload,
    /// The payload has no ChatGPT account ID.
    NoAccountId,
    /// The payload has no integer expiry.
    NoExpiry,
    /// The clock is set before the Unix epoch.
    ClockBeforeEpoch,
}

impl TokenError {
    /// The message shown for this error.
    pub open spec fn spec_message(self) -> Seq<char> {
        match self {
            TokenError::NotJwt => "Codex access token is not a JWT"@,
            TokenError::BadEncoding => "Invalid Codex access token encoding"@,
            TokenError::BadPayload => "Invalid Codex access token payload"@,
            TokenError::NoAccountId => "Codex access token has no ChatGPT account ID"@,
            TokenError::NoExpiry => "Codex access token has no expiry"@,
            TokenError::ClockBeforeEpoch => "system time before Unix epoch"@,
        }
    }

    /// The message shown for this error.
    pub fn message(&self) -> (r: String)
        ensures
            r@ == self.spec_message(),
    {
        match self {
            TokenError::NotJwt => to_owned("Codex access token is not a JWT"),
            TokenError::BadEncoding => to_owned("Invalid Codex access token encoding"),
            TokenError::BadPayload => to_owned("Invalid Codex access token payload"),
            TokenError::NoAccountId => to_owned("Codex access token has no ChatGPT account ID"),
            TokenError::NoExpiry => to_owned("Codex access token has no expiry"),
            TokenError::ClockBeforeEpoch => to_owned("system time before Unix epoch"),
        }
    }
}

/// The payload segment of a JWT: the text between its first and second `.`
/// (or after the first `.` when there is no second).
pub open spec fn payload_segment(token: Seq<char>) -> Option<Seq<char>> {
    nth_piece(token, '.', 1)
}

/// Why the payload of `token` cannot be read, if it cannot.
pub open spec fn payload_error(token: Seq<char>) -> Option<TokenError> {
    match payload_segment(token) {
        None => Some(TokenError::NotJwt),
        Some(segment) => match base64_url_decode(segment) {
            None => Some(TokenError::BadEncoding),
            Some(bytes) => if json_accepts(bytes) {
                None
            } else {
                Some(TokenError::BadPayload)
            },
        },
    }
}

/// The decoded payload of a JWT (empty when it cannot be decoded).
pub open spec fn decoded_payload(token: Seq<char>) -> Seq<u8> {
    match payload_segment(token) {
        Some(segment) => match base64_url_decode(segment) {
            Some(bytes) => bytes,
            None => Seq::empty(),
        },
        None => Seq::empty(),
    }
}

/// The payload of a JWT `header.payload.signature` is its middle segment
/// (also when the signature is missing), and a token without a `.` is no JWT.
pub proof fn lemma_jwt_payload_segment(header: Seq<char>, payload: Seq<char>, rest: Seq<char>, token: Seq<char>)
    requires
        !header.contains('.'),
        !payload.contains('.'),
    ensures
        payload_segment(header + seq!['.'] + payload + seq!['.'] + rest) == Some(payload),
        payload_segment(header + seq!['.'] + payload) == Some(payload),
        !token.contains('.') ==> payload_error(token) == Some(TokenError::NotJwt),
{
    let tail = payload + seq!['.'] + rest;
    let s = header + seq!['.'] + tail;
    assert(s =~= header + seq!['.'] + payload + seq!['.'] + rest);
    assert(is_first_index(s, '.', header.len() as int)) by {
        assert forall|j: int| 0 <= j < header.len() implies s[j] != '.' by {
            assert(s[j] == header[j]);
        }
    }
    lemma_split_once_at(s, '.', header.len() as int);
    assert(s.subrange(0, header.len() as int) =~= header);
    assert(s.subrange(header.len() as int + 1, s.len() as int) =~= tail);
    assert(is_first_index(tail, '.', payload.len() as int)) by {
        assert forall|j: int| 0 <= j < payload.len() implies tail[j] != '.' by {
            assert(tail[j] == payload[j]);
        }
    }
    lemma_split_once_at(tail, '.', payload.len() as int);
    assert(tail.subrange(0, payload.len() as int) =~= payload);
    assert(nth_piece(tail, '.', 0) == Some(payload));
    assert(nth_piece(s, '.', 1) == nth_piece(tail, '.', 0));
    let s2 = header + seq!['.'] + payload;
    assert(is_first_index(s2, '.', header.len() as int)) by {
        assert forall|j: int| 0 <= j < header.len() implies s2[j] != '.' by {
            assert(s2[j] == header[j]);
        }
    }
    lemma_split_once_at(s2, '.', header.len() as int);
    assert(s2.subrange(header.len() as int + 1, s2.len() as int) =~= payload);
    assert(nth_piece(payload, '.', 0) == Some(payload));
    assert(nth_piece(s2, '.', 1) == nth_piece(payload, '.', 0));
    if !token.contains('.') {
        assert(nth_piece(token, '.', 1) is None);
    }
}

/// A token valid for some time after some moment is valid for less time
/// after an earlier moment; a later expiry keeps it valid.
pub proof fn lemma_validity_monotone(expiry: i64, now: nat, seconds: i64, expiry2: i64, now2: nat, seconds2: i64)
    requires
        valid_at(expiry, now, seconds),
        now2 <= now,
        seconds2 <= seconds,
        expiry <= expiry2,
    ensures
        valid_at(expiry2, now2, seconds2),
{
}

/// Where the account ID sits in the payload.
pub open spec fn account_claim_path() -> Seq<Seq<char>> {
    seq!["https://api.openai.com/auth"@, "chatgpt_account_id"@]
}

/// Where the expiry sits in the payload.
pub open spec fn expiry_claim_path() -> Seq<Seq<char>> {
    seq!["exp"@]
}

/// The decoded JSON payload of a JWT.
fn jwt_payload(token: &str) -> (r: Result<Vec<u8>, TokenError>)
    ensures
        match r {
            Ok(b) => payload_error(token@) is None && b@ == decoded_payload(token@),
            Err(e) => payload_error(token@) == Some(e),
        },
{
    let segment = match nth_piece_exec(token, '.', 1) {
        Some(s) => s,
        None => {
            return Err(TokenError::NotJwt);
        },
    };
    let bytes = match decode_url_safe(segment) {
        Some(b) => b,
        None => {
            return Err(TokenError::BadEncoding);
        },
    };
    if json_parses(bytes.as_slice()) {
        Ok(bytes)
    } else {
        Err(TokenError::BadPayload)
    }
}

/// The ChatGPT account ID in a Codex access token: the string member
/// `chatgpt_account_id` of the claim `https://api.openai.com/auth`.
pub fn account_id(token: &str) -> (r: Result<String, TokenError>)
    ensures
        payload_error(token@) matches Some(e) ==> r == Err::<String, TokenError>(e),
        payload_error(token@) is None ==> match r {
            Ok(s) => json_str_at(decoded_payload(token@), account_claim_path()) == Some(s@),
            Err(e) => e == TokenError::NoAccountId && json_str_at(
                decoded_payload(token@),
                account_claim_path(),
            ) is None,
        },
{
    let payload = jwt_payload(token)?;
    let mut path: Vec<String> = Vec::new();
    path.push(to_owned("https://api.openai.com/auth"));
    path.push(to_owned("chatgpt_account_id"));
    proof {
        reveal_strlit("https://api.openai.com/auth");
        reveal_strlit("chatgpt_account_id");
        assert(path@.map_values(|p: String| p@) =~= account_claim_path());
    }
    match str_at(payload.as_slice(), &path) {
        Some(s) => Ok(s),
        None => Err(TokenError::NoAccountId),
    }
}

/// Whether a token that expires at `expiry` is still valid `seconds` after
/// `now` (seconds since the Unix epoch).
pub open spec fn valid_at(expiry: i64, now: nat, seconds: i64) -> bool {
    expiry > now + seconds
}

/// Whether a token that expires at `expiry` is still valid `seconds` after
/// `now` (seconds since the Unix epoch).
pub fn expires_after(expiry: i64, now: u64, seconds: i64) -> (b: bool)
    ensures
        b == (expiry > now + seconds),
{
    (expiry as i128) > (now as i128) + (seconds as i128)
}

/// Whether a Codex access token stays valid for at least `seconds` more
/// seconds: whether its `exp` claim lies beyond the current time plus
/// `seconds`.
pub fn token_valid_for(token: &str, seconds: i64) -> (r: Result<bool, TokenError>)
    ensures
        payload_error(token@) matches Some(e) ==> r == Err::<bool, TokenError>(e),
        payload_error(token@) is None ==> match r {
            Ok(b) => json_i64_at(decoded_payload(token@), expiry_claim_path()) matches Some(
                expiry,
            ) && exists|now: nat| b == #[trigger] valid_at(expiry, now, seconds),
            Err(e) => (e == TokenError::NoExpiry && json_i64_at(
                decoded_payload(token@),
                expiry_claim_path(),
            ) is None) || (e == TokenError::ClockBeforeEpoch && json_i64_at(
                decoded_payload(token@),
                expiry_claim_path(),
            ) is Some),
        },
{
    let payload = jwt_payload(token)?;
    let mut path: Vec<String> = Vec::new();
    path.push(to_owned("exp"));
    proof {
        reveal_strlit("exp");
        assert(path@.map_values(|p: String| p@) =~= expiry_claim_path());
    }
    let expiry = match i64_at(payload.as_slice(), &path) {
        Some(x) => x,
        None => {
            return Err(TokenError::NoExpiry);
        },
    };
    let clock = system_now();
    let now = match since_unix_epoch(&clock) {
        Some(d) => duration_secs(&d),
        None => {
            return Err(TokenError::ClockBeforeEpoch);
        },
    };
    let b = expires_after(expiry, now, seconds);
    assert(b == valid_at(expiry, now as nat, seconds));
    Ok(b)
}

} // verus!
