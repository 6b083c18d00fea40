//! Time as a count of nanoseconds.

use vstd::prelude::*;

verus! {

/// The longest span of time, in nanoseconds: `u64::MAX` seconds and a fraction
/// of a second.
pub const LONGEST: u128 = 18_446_744_073_709_551_615_999_999_999;

/// `std::time::Instant`, a reading of the monotonic clock.
#[verifier::external_type_specification]
#[verifier::external_body]
pub struct ExInstant(std::time::Instant);

/// `Instant::now` reads the monotonic clock. Nothing is claimed of the reading.
pub assume_specification[ std::time::Instant::now ]() -> std::time::Instant;

/// `Instant::elapsed`, as a number of nanoseconds: the time since `epoch`. It
/// rests on the clock, so the one claim is its range, which is that of
/// `std::time::Duration`: whole seconds in a `u64`, and less than one second
/// more.
#[verifier::external_body]
pub(crate) fn nanos_since(epoch: &std::time::Instant) -> (r: u128)
    ensures
        r <= LONGEST,
{
    epoch.elapsed().as_nanos()
}

/// Whether the clock can have given `r` as the time since `epoch`, that is,
/// whether `r` is an outcome of [`nanos_since`].
pub closed spec fn reading(epoch: std::time::Instant, r: u128) -> bool {
    call_ensures(nanos_since, (&epoch,), r)
}

/// The outcome of `clock` for `epoch`.
fn asked<F: Fn(&std::time::Instant) -> u128>(clock: F, epoch: &std::time::Instant) -> (r: u128)
    requires
        call_requires(clock, (epoch,)),
    ensures
        call_ensures(clock, (epoch,), r),
{
    clock(epoch)
}

/// The time since `epoch`, read from the clock.
pub(crate) fn read(epoch: &std::time::Instant) -> (r: u128)
    ensures
        reading(*epoch, r),
        r <= LONGEST,
{
    asked(nanos_since, epoch)
}

} // verus!
