//! The system clock, through the standard library's `std::time`.
use vstd::prelude::*;
use std::time::{Duration, SystemTime, SystemTimeError};

verus! {

#[verifier::external_type_specification]
#[verifier::external_body]
pub struct ExSystemTime(SystemTime);

#[verifier::external_type_specification]
#[verifier::external_body]
pub struct ExSystemTimeError(SystemTimeError);

/// `SystemTime::now`.
///
/// Trusted with no promise: the result is the time of the call.
#[verifier::external_body]
pub(crate) fn now() -> (r: SystemTime) {
    SystemTime::now()
}

/// `SystemTime::duration_since`: how long after `earlier` the time `later` is, or an error
/// where `later` comes first.
///
/// Trusted with no promise: both times and the result are opaque here.
#[verifier::external_body]
pub(crate) fn duration_since(later: &SystemTime, earlier: &SystemTime) -> (r: Result<Duration, SystemTimeError>) {
    later.duration_since(*earlier)
}

/// `Duration::as_nanos`: the whole nanoseconds in `d`.
///
/// Trusted with no promise: the duration is opaque here.
#[verifier::external_body]
pub(crate) fn as_nanos(d: &Duration) -> (r: u128) {
    d.as_nanos()
}

/// The text of a clock error, as its `Display` writes it.
///
/// Trusted with no promise on the text.
#[verifier::external_body]
pub(crate) fn error_text(e: &SystemTimeError) -> (r: String) {
    e.to_string()
}

} // verus!
