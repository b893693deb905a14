//! Fresh identifiers and the wall clock, both supplied by outside crates.

use vstd::prelude::*;

verus! {

/// A fresh random identifier from `uuid::Uuid::new_v4`, as its 128-bit value.
/// Nothing is promised of the value: it is random.
#[verifier::external_body]
pub(crate) fn new_id() -> (r: u128) {
    uuid::Uuid::new_v4().as_u128()
}

/// A time the clock can read: `DateTime<Utc>` spans the years -262143 to 262142, so
/// in milliseconds it lies within 10^16 of the epoch.
pub open spec fn clock_reading(t: i64) -> bool {
    -10_000_000_000_000_000 <= t <= 10_000_000_000_000_000
}

/// The current time from `chrono::Utc::now`, in milliseconds since the UNIX epoch. It
/// depends on the clock; all that is promised is the range of `DateTime<Utc>`, whose
/// years run from -262143 to 262142, so that the value lies within 10^16 of the epoch.
#[verifier::external_body]
pub(crate) fn now_millis() -> (r: i64)
    ensures
        clock_reading(r),
{
    chrono::Utc::now().timestamp_millis()
}

/// The 128-bit value of a text that `uuid::Uuid::parse_str` accepts, `None` for a text
/// it refuses.
pub uninterp spec fn uuid_parsed(text: Seq<char>) -> Option<u128>;

/// `uuid::Uuid::parse_str`, the result taken as its 128-bit value.
#[verifier::external_body]
pub(crate) fn parse_uuid(text: &str) -> (r: Option<u128>)
    ensures
        r == uuid_parsed(text@),
{
    uuid::Uuid::parse_str(text).ok().map(|u| u.as_u128())
}

} // verus!
