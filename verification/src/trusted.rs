//! Wrappers around outside code that the library relies on. Verus believes
//! each wrapper's contract; the body only makes the call and converts.

use vstd::prelude::*;

verus! {

/// Relies on std's `FromIterator<char> for String`: collecting characters
/// yields the string holding exactly those characters in order.
#[verifier::external_body]
pub(crate) fn chars_to_string(v: &Vec<char>) -> (r: String)
    ensures
        r@ == v@,
{
    v.iter().collect()
}

/// What `slug::slugify` returns: a function of the input characters alone.
pub uninterp spec fn slug_of(s: Seq<char>) -> Seq<char>;

/// Relies on slug::slugify: deterministic, depending on the input alone.
#[verifier::external_body]
pub(crate) fn slugify(s: &str) -> (r: String)
    ensures
        r@ == slug_of(s@),
{
    slug::slugify(s)
}

/// Relies on rand::random: a uniformly drawn number, nothing promised.
#[verifier::external_body]
pub(crate) fn rand_u32() -> u32 {
    rand::random::<u32>()
}

/// Relies on uuid::Uuid::new_v4 and its `Display`: a random version-4 UUID
/// rendered in the hyphenated form, which is 36 characters long.
#[verifier::external_body]
pub(crate) fn uuid_new_v4_string() -> (r: String)
    ensures
        r@.len() == 36,
{
    uuid::Uuid::new_v4().to_string()
}

/// Whether `uuid::Uuid::parse_str` accepts the string: a function of the
/// input characters alone.
pub uninterp spec fn uuid_str_ok(s: Seq<char>) -> bool;

/// Relies on uuid::Uuid::parse_str: deterministic validation of a UUID
/// string, depending on the input alone.
#[verifier::external_body]
pub(crate) fn uuid_valid(s: &str) -> (r: bool)
    ensures
        r == uuid_str_ok(s@),
{
    uuid::Uuid::parse_str(s).is_ok()
}

/// Whether chrono can represent the Unix timestamp (whole seconds): a
/// function of the number alone.
pub uninterp spec fn chrono_ts_ok(ts: i64) -> bool;

/// Relies on chrono's `TimeZone::timestamp_opt` on `Utc`: deterministic
/// range validation of a whole-second Unix timestamp.
#[verifier::external_body]
pub(crate) fn timestamp_valid(ts: i64) -> (r: bool)
    ensures
        r == chrono_ts_ok(ts),
{
    chrono::TimeZone::timestamp_opt(&chrono::Utc, ts, 0).single().is_some()
}

} // verus!
