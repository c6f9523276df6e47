//! Identifiers, clock readings and date parsing, taken from outside crates.
use vstd::prelude::*;

verus! {

/// The instant, in whole seconds since the Unix epoch, that chrono reads from
/// an RFC 3339 text, or `None` where it rejects the text.
pub uninterp spec fn parsed_instant(text: Seq<char>) -> Option<i64>;

/// Relies on chrono's `FromStr` for `DateTime<FixedOffset>` (relaxed RFC 3339)
/// and `DateTime::timestamp`: the result depends on the text alone.
#[verifier::external_body]
pub(crate) fn parse_instant(text: &str) -> (r: Option<i64>)
    ensures
        r == parsed_instant(text@),
{
    match text.parse::<chrono::DateTime<chrono::FixedOffset>>() {
        Ok(d) => Some(d.timestamp()),
        Err(_) => None,
    }
}

/// Relies on chrono's `Utc::now` and `DateTime::timestamp`: the current time
/// in whole seconds since the Unix epoch. Nothing is known of its value.
#[verifier::external_body]
pub(crate) fn now_seconds() -> (r: i64) {
    chrono::Utc::now().timestamp()
}

/// Relies on uuid's `Uuid::new_v4` and its `Display`: a random identifier in
/// hyphenated form. Nothing is known of its value.
#[verifier::external_body]
pub(crate) fn fresh_id() -> (r: String) {
    uuid::Uuid::new_v4().to_string()
}

} // verus!
