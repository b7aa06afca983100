//! Time and identifier sources of the outside world.

use vstd::prelude::*;

verus! {

/// `chrono::Utc::now().to_rfc3339()`: the current time as RFC 3339 text. The
/// value depends on the clock, so nothing is stated of it.
#[verifier::external_body]
pub(crate) fn now() -> (text: String) {
    chrono::Utc::now().to_rfc3339()
}

/// Lower-case hexadecimal digits.
pub open spec fn lower_hex(c: char) -> bool {
    ('0' <= c <= '9') || ('a' <= c <= 'f')
}

/// The hyphenated lower-case text of a random (version 4, RFC 4122 variant)
/// UUID: 36 characters, hyphens at positions 8, 13, 18 and 23, the version
/// digit `4` at position 14, a variant digit among `8`, `9`, `a`, `b` at
/// position 19, and lower-case hexadecimal digits elsewhere.
pub open spec fn uuid_v4_text(s: Seq<char>) -> bool {
    &&& s.len() == 36
    &&& forall|i: int|
        0 <= i < 36 ==> if i == 8 || i == 13 || i == 18 || i == 23 {
            s[i] == '-'
        } else {
            lower_hex(#[trigger] s[i])
        }
    &&& s[14] == '4'
    &&& (s[19] == '8' || s[19] == '9' || s[19] == 'a' || s[19] == 'b')
}

/// `uuid::Uuid::new_v4().to_string()`: a fresh random request identifier.
/// The value is random; what holds of every outcome is its shape.
#[verifier::external_body]
pub(crate) fn new_request_id() -> (id: String)
    ensures
        uuid_v4_text(id@),
{
    uuid::Uuid::new_v4().to_string()
}


/// `chrono::Utc::now()`: the current instant. The value depends on the clock,
/// so nothing is stated of it.
#[verifier::external_body]
pub(crate) fn utc_now() -> (now: (i64, u32)) {
    let now = chrono::Utc::now();
    (now.timestamp(), now.timestamp_subsec_nanos())
}

/// The instant that `chrono::DateTime::parse_from_rfc3339` reads from an RFC
/// 3339 text, in UTC, or `None` when the text is not RFC 3339.
pub uninterp spec fn rfc3339_utc(text: Seq<char>) -> Option<(i64, u32)>;

/// `chrono::DateTime::parse_from_rfc3339`, with the instant taken in UTC as
/// seconds since the epoch and nanoseconds within the second.
#[verifier::external_body]
pub(crate) fn parse_rfc3339(text: &str) -> (instant: Option<(i64, u32)>)
    ensures
        instant == rfc3339_utc(text@),
{
    match chrono::DateTime::parse_from_rfc3339(text) {
        Ok(t) => Some((t.timestamp(), t.timestamp_subsec_nanos())),
        Err(_) => None,
    }
}

/// Instant `a` is not later than instant `b`.
pub open spec fn not_after(a: (i64, u32), b: (i64, u32)) -> bool {
    a.0 < b.0 || (a.0 == b.0 && a.1 <= b.1)
}

} // verus!
