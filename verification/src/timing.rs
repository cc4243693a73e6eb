//! Elapsed-time measurement in milliseconds.

use vstd::prelude::*;

verus! {

/// Relies on `std::time::Instant` being usable as an opaque clock
/// reading; the library never looks inside a value of it.
#[verifier::external_type_specification]
#[verifier::external_body]
pub struct ExInstant(std::time::Instant);

/// Relies on `std::time::Instant::elapsed`, `Duration::as_secs` and
/// `Duration::subsec_nanos`: the sub-second part is below one billion
/// nanoseconds. What the clock reads is the machine's business, so
/// nothing more is promised.
#[verifier::external_body]
fn elapsed_parts(timer: &std::time::Instant) -> (r: (u64, u32))
    ensures
        r.1 < 1_000_000_000,
{
    let elapsed = timer.elapsed();
    (elapsed.as_secs(), elapsed.subsec_nanos())
}

/// How many milliseconds a duration of `secs` seconds and `nanos`
/// leftover nanoseconds spans.
pub open spec fn millis_of(secs: u64, nanos: u32) -> int {
    secs * 1000 + nanos / 1_000_000
}

/// The whole milliseconds in a duration of `secs` seconds and `nanos`
/// leftover nanoseconds, saturating at the top of `u64` (a value no
/// clock reaches).
pub fn duration_millis(secs: u64, nanos: u32) -> (r: u64)
    requires
        nanos < 1_000_000_000,
    ensures
        r == if millis_of(secs, nanos) <= u64::MAX {
            millis_of(secs, nanos)
        } else {
            u64::MAX as int
        },
{
    let el_n: u64 = (nanos / 1_000_000) as u64;
    let total: u128 = (secs as u128) * 1000 + (el_n as u128);
    proof {
        assert(total == millis_of(secs, nanos));
    }
    if total <= u64::MAX as u128 {
        total as u64
    } else {
        u64::MAX
    }
}

/// Relies on `std::time::Instant::now` for a reference point; what
/// the clock reads is the machine's business.
#[verifier::external_body]
pub(crate) fn now_instant() -> std::time::Instant {
    std::time::Instant::now()
}

/// The milliseconds elapsed since `timer`. What the clock reads is
/// the machine's business; the arithmetic on the reading is
/// `duration_millis`.
pub fn time_in_millis(timer: &std::time::Instant) -> u64 {
    let parts = elapsed_parts(timer);
    duration_millis(parts.0, parts.1)
}

} // verus!
