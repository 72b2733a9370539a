//! Trusted boundary to the process clock, the uuid generator, and the two
//! std string operations that vstd does not specify.

use vstd::prelude::*;

verus! {

/// Relies on std::time::SystemTime: milliseconds since the Unix epoch.
/// The value depends on the clock, so nothing more than non-negativity
/// (guaranteed by the `unwrap_or_default` fallback) is promised.
#[verifier::external_body]
pub fn now_ms() -> (r: i64)
    ensures
        r >= 0,
{
    let ms = std::time::SystemTime::now()
        .duration_since(std::time::UNIX_EPOCH)
        .unwrap_or_default()
        .as_millis();
    if ms > i64::MAX as u128 { i64::MAX } else { ms as i64 }
}

/// Relies on uuid::Uuid::new_v4 and its Display impl: a random v4 uuid in
/// the hyphenated form, which is 36 characters with `-` at index 8.
/// The value is random, so only the shape is promised.
#[verifier::external_body]
pub fn new_uuid() -> (r: String)
    ensures
        r@.len() == 36,
        r@[8] == '-',
{
    uuid::Uuid::new_v4().to_string()
}

/// Relies on String::push: appends one character.
#[verifier::external_body]
pub fn push_char(s: &mut String, c: char)
    ensures
        final(s)@ == old(s)@.push(c),
{
    s.push(c);
}

/// Relies on char::from_u32: `Some` exactly for Unicode scalar values, and
/// the resulting char has the given code point.
pub assume_specification[ char::from_u32 ](v: u32) -> (r: Option<char>)
    ensures
        r is Some <==> (v < 0xD800 || (0xE000 <= v && v <= 0x10FFFF)),
        r is Some ==> r->Some_0 as u32 == v,
;

} // verus!
