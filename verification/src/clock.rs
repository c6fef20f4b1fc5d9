//! The wall clock. An instant is the signed number of nanoseconds from the
//! UNIX epoch: positive after it, negative before it.
use vstd::prelude::*;

verus! {

/// The longest span a `Duration` can express, in nanoseconds: `u64::MAX`
/// whole seconds and 999 999 999 nanoseconds.
pub open spec fn max_instant() -> i128 {
    18446744073709551615999999999i128
}

/// The instant `nanos` nanoseconds after the epoch, or before it when
/// `after_epoch` is false.
pub open spec fn instant(after_epoch: bool, nanos: u128) -> int {
    if after_epoch {
        nanos as int
    } else {
        -(nanos as int)
    }
}

/// `t` is an instant the clock has given. Sealed: outside this definition
/// only what the clock itself returns carries it, so a contract that
/// speaks of "some `t` with `is_clock_reading(t)`" speaks of the instant
/// read during the call, not of any instant a body might pick.
#[verifier::opaque]
pub open spec fn is_clock_reading(t: int) -> bool {
    -max_instant() <= t <= max_instant()
}

/// A clock reading lies in the range a `Duration` spans on either side of
/// the epoch.
pub proof fn lemma_clock_reading_in_range(t: int)
    requires
        is_clock_reading(t),
    ensures
        -max_instant() <= t <= max_instant(),
{
    reveal(is_clock_reading);
}

/// `web_time::SystemTime::now()`, read as its distance from the UNIX epoch:
/// whether it is at or after the epoch (`duration_since(UNIX_EPOCH)`
/// succeeds) and the length of the `Duration` in nanoseconds (the one of
/// the error when the clock is set before the epoch). What time it is
/// cannot be known in advance; the contract states only that the length is
/// one a `Duration` can hold.
#[verifier::external_body]
fn read_clock() -> (reading: (bool, u128))
    ensures
        reading.1 <= max_instant(),
        is_clock_reading(instant(reading.0, reading.1)),
{
    match web_time::SystemTime::now().duration_since(web_time::UNIX_EPOCH) {
        Ok(elapsed) => (true, elapsed.as_nanos()),
        Err(error) => (false, error.duration().as_nanos()),
    }
}

/// The instant `nanos` nanoseconds after the epoch (before it when
/// `after_epoch` is false), as a signed count of nanoseconds.
pub fn instant_from(after_epoch: bool, nanos: u128) -> (t: i128)
    requires
        nanos <= max_instant(),
    ensures
        t == instant(after_epoch, nanos),
        -max_instant() <= t <= max_instant(),
{
    let magnitude = nanos as i128;
    if after_epoch {
        magnitude
    } else {
        -magnitude
    }
}

/// The current instant. Any instant a `SystemTime` can be on either side of
/// the epoch is possible; instants compare as the times they stand for.
pub fn now() -> (t: i128)
    ensures
        -max_instant() <= t <= max_instant(),
        is_clock_reading(t as int),
{
    let (after_epoch, nanos) = read_clock();
    instant_from(after_epoch, nanos)
}

} // verus!
