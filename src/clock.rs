//! Wall-clock time, as milliseconds since the Unix epoch.
use vstd::prelude::*;

verus! {

/// Relies on `chrono::Local::now` and `DateTime::timestamp_millis`: the
/// current time in milliseconds since the Unix epoch; nothing more is
/// promised of a reading of the clock. It panics only if the system clock
/// reads a time before the epoch.
#[verifier::external_body]
pub(crate) fn now_millis() -> (t: i64) {
    chrono::Local::now().timestamp_millis()
}

/// `to - from`, held within the range of `i64`.
pub open spec fn span(from: i64, to: i64) -> i64 {
    if to - from > i64::MAX {
        i64::MAX
    } else if to - from < i64::MIN {
        i64::MIN
    } else {
        (to - from) as i64
    }
}

/// The milliseconds from `from` to `to`, held within the range of `i64`.
pub fn millis_between(from: i64, to: i64) -> (d: i64)
    ensures
        d == span(from, to),
{
    let wide: i128 = to as i128 - from as i128;
    if wide > i64::MAX as i128 {
        i64::MAX
    } else if wide < i64::MIN as i128 {
        i64::MIN
    } else {
        wide as i64
    }
}

} // verus!
