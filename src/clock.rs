use vstd::prelude::*;

verus! {

/// Relies on chrono's `From<SystemTime> for DateTime<Utc>` applied to
/// `SystemTime::now()`, followed by `DateTime::timestamp_millis`: the current
/// wall-clock time in milliseconds since the Unix epoch. A clock set before
/// the epoch gives a negative value rather than a panic. Nothing is known of
/// the value: two calls may differ.
#[verifier::external_body]
pub(crate) fn now_millis() -> (r: i64) {
    chrono::DateTime::<chrono::Utc>::from(std::time::SystemTime::now()).timestamp_millis()
}

} // verus!
