//! Short identifiers for model-change proposals, taken from the clock.

use vstd::prelude::*;
use crate::text::{digit_char, digit_to_char, push_char};

verus! {

#[verifier::external_type_specification]
#[verifier::external_body]
pub struct ExSystemTime(std::time::SystemTime);

/// The current time.
///
/// Calls `std::time::SystemTime::now`, which reads the clock; nothing is
/// stated of the result.
#[verifier::external_body]
pub(crate) fn system_now() -> (r: std::time::SystemTime) {
    std::time::SystemTime::now()
}

/// How long after the Unix epoch `t` is, or `None` when it is earlier.
///
/// Calls `std::time::SystemTime::duration_since` with `UNIX_EPOCH` and drops
/// the error; a `SystemTime` is opaque to the library, so nothing is stated of
/// the result.
#[verifier::external_body]
pub(crate) fn since_unix_epoch(t: &std::time::SystemTime) -> (r: Option<std::time::Duration>) {
    t.duration_since(std::time::UNIX_EPOCH).ok()
}

/// The whole nanoseconds in `d`.
///
/// Calls `std::time::Duration::as_nanos`; a `Duration` is opaque to the
/// library, so nothing is stated of the result.
#[verifier::external_body]
fn duration_nanos(d: &std::time::Duration) -> (r: u128) {
    d.as_nanos()
}

/// The whole seconds in `d`.
///
/// Calls `std::time::Duration::as_secs`; a `Duration` is opaque to the
/// library, so nothing is stated of the result.
#[verifier::external_body]
pub(crate) fn duration_secs(d: &std::time::Duration) -> (r: u64) {
    d.as_secs()
}

/// The lower-case hexadecimal digit for `d` (`0 <= d < 16`).
pub open spec fn hex_digit(d: nat) -> char {
    if d < 10 {
        digit_char(d)
    } else if d == 10 {
        'a'
    } else if d == 11 {
        'b'
    } else if d == 12 {
        'c'
    } else if d == 13 {
        'd'
    } else if d == 14 {
        'e'
    } else {
        'f'
    }
}

/// The lower-case hexadecimal representation of `n`, as `format!("{:x}")`
/// writes it.
pub open spec fn lower_hex(n: nat) -> Seq<char>
    decreases n,
{
    if n < 16 {
        seq![hex_digit(n)]
    } else {
        lower_hex(n / 16).push(hex_digit(n % 16))
    }
}

/// Whether `c` is an ASCII hexadecimal digit (as `char::is_ascii_hexdigit`).
pub open spec fn is_hex_char(c: char) -> bool {
    ('0' <= c && c <= '9') || ('a' <= c && c <= 'f') || ('A' <= c && c <= 'F')
}

/// A hexadecimal representation is not empty and holds only hex digits.
pub proof fn lemma_lower_hex_shape(n: nat)
    ensures
        lower_hex(n).len() > 0,
        forall|i: int| 0 <= i < lower_hex(n).len() ==> is_hex_char(#[trigger] lower_hex(n)[i]),
    decreases n,
{
    if n >= 16 {
        lemma_lower_hex_shape(n / 16);
        let h = lower_hex(n);
        let front = lower_hex(n / 16);
        assert forall|i: int| 0 <= i < h.len() implies is_hex_char(#[trigger] h[i]) by {
            if i < front.len() {
                assert(h[i] == front[i]);
            }
        }
    }
}

fn hex_digit_char(d: u128) -> (c: char)
    requires
        d < 16,
    ensures
        c == hex_digit(d as nat),
{
    if d < 10 {
        digit_to_char(d as u64)
    } else if d == 10 {
        'a'
    } else if d == 11 {
        'b'
    } else if d == 12 {
        'c'
    } else if d == 13 {
        'd'
    } else if d == 14 {
        'e'
    } else {
        'f'
    }
}

/// The lower-case hexadecimal representation of `n`.
pub fn to_lower_hex(n: u128) -> (r: String)
    ensures
        r@ == lower_hex(n as nat),
    decreases n,
{
    if n < 16 {
        let mut r = String::new();
        push_char(&mut r, hex_digit_char(n));
        assert(r@ =~= seq![hex_digit(n as nat)]);
        r
    } else {
        let mut r = to_lower_hex(n / 16);
        push_char(&mut r, hex_digit_char(n % 16));
        r
    }
}

/// A short identifier: the nanoseconds since the Unix epoch (0 for a clock
/// set before it), in lower-case hexadecimal.
pub fn short_id() -> (r: String)
    ensures
        exists|nanos: nat| r@ == lower_hex(nanos),
        r@.len() > 0,
        forall|i: int| 0 <= i < r@.len() ==> is_hex_char(#[trigger] r@[i]),
{
    let now = system_now();
    let nanos: u128 = match since_unix_epoch(&now) {
        Some(d) => duration_nanos(&d),
        None => 0,
    };
    let r = to_lower_hex(nanos);
    proof {
        lemma_lower_hex_shape(nanos as nat);
    }
    r
}

} // verus!
