//! The library's view of the outside world: fresh identifiers, the clock,
//! and network-literal validation. Each function here wraps one outside
//! call; everything that reasons about the results is verified against the
//! contracts below.
use vstd::prelude::*;

verus! {

/// A lower-case hexadecimal digit.
pub open spec fn is_hex_char(c: char) -> bool {
    ||| '0' as int <= c as int <= '9' as int
    ||| 'a' as int <= c as int <= 'f' as int
}

/// The hyphenated text of a version-4 universally unique identifier:
/// 36 characters, hyphens at 8, 13, 18 and 23, lower-case hexadecimal
/// digits elsewhere, the version nibble `4` and a variant nibble in
/// `8`, `9`, `a`, `b`.
pub open spec fn is_uuid_text(s: Seq<char>) -> bool {
    &&& s.len() == 36
    &&& s[8] == '-' && s[13] == '-' && s[18] == '-' && s[23] == '-'
    &&& forall|i: int|
        0 <= i < 36 && i != 8 && i != 13 && i != 18 && i != 23 ==> is_hex_char(#[trigger] s[i])
    &&& s[14] == '4'
    &&& (s[19] == '8' || s[19] == '9' || s[19] == 'a' || s[19] == 'b')
}

/// Relies on uuid::Uuid::new_v4, which draws a random version-4 identifier,
/// and on its Display form, which is the hyphenated lower-case text.
/// Freshness rests on the generator's randomness and is not promised here.
#[verifier::external_body]
pub fn fresh_uuid() -> (r: String)
    ensures
        is_uuid_text(r@),
{
    uuid::Uuid::new_v4().to_string()
}

/// Relies on chrono::Utc::now, which reads the system clock, and on
/// DateTime::timestamp_nanos_opt, which renders it as nanoseconds since the
/// epoch, `None` when that does not fit an i64. Nothing can be promised of
/// the clock's value.
#[verifier::external_body]
pub fn utc_now_nanos() -> (r: Option<i64>) {
    chrono::Utc::now().timestamp_nanos_opt()
}

/// Whether a string reads as a network in CIDR notation, as
/// ipnet::IpNet's FromStr accepts it.
pub uninterp spec fn cidr_ok(s: Seq<char>) -> bool;

/// Relies on ipnet::IpNet's FromStr implementation: it accepts exactly the
/// IPv4 and IPv6 network literals, and its answer depends on the string
/// alone.
#[verifier::external_body]
pub fn valid_cidr(s: &str) -> (r: bool)
    ensures
        r == cidr_ok(s@),
{
    s.parse::<ipnet::IpNet>().is_ok()
}

} // verus!
