//! Instants on the Unix time line, and the system clock.

use std::time::{SystemTime, UNIX_EPOCH};
use vstd::prelude::*;

verus! {

/// Nanoseconds in one second.
pub const NANOS_PER_SEC: u64 = 1_000_000_000;

/// Seconds in one hour.
pub const SECS_PER_HOUR: u64 = 3600;

/// An instant, counted from the Unix epoch.
///
/// Instants are ordered by [`Timestamp::nanos`], the whole count of
/// nanoseconds; the two fields are only the way that count is stored.
#[derive(Clone, Copy, Debug, PartialEq, Eq, Structural)]
pub struct Timestamp {
    pub secs_since_epoch: u64,
    pub nanos_since_epoch: u32,
}

impl Timestamp {
    /// Nanoseconds from the epoch to this instant.
    pub open spec fn nanos(self) -> int {
        self.secs_since_epoch * NANOS_PER_SEC + self.nanos_since_epoch
    }

    /// The instant `hours` whole hours after `self`, as far as it can be stored.
    pub open spec fn hours_later(self, hours: u64) -> Option<Timestamp> {
        if self.secs_since_epoch + SECS_PER_HOUR * hours <= u64::MAX {
            Some(
                Timestamp {
                    secs_since_epoch: (self.secs_since_epoch + SECS_PER_HOUR * hours) as u64,
                    nanos_since_epoch: self.nanos_since_epoch,
                },
            )
        } else {
            None
        }
    }

    /// The epoch itself.
    pub fn epoch() -> (t: Timestamp)
        ensures
            t == (Timestamp { secs_since_epoch: 0, nanos_since_epoch: 0 }),
            t.nanos() == 0,
    {
        Timestamp { secs_since_epoch: 0, nanos_since_epoch: 0 }
    }

    /// The count of nanoseconds from the epoch, which always fits in 128 bits.
    pub fn total_nanos(&self) -> (n: u128)
        ensures
            n == self.nanos(),
    {
        let secs: u128 = self.secs_since_epoch as u128;
        let per_sec: u128 = NANOS_PER_SEC as u128;
        assert(secs * per_sec <= 0xffff_ffff_ffff_ffff * 1_000_000_000) by (nonlinear_arith)
            requires
                secs <= 0xffff_ffff_ffff_ffff,
                per_sec == 1_000_000_000,
        ;
        secs * per_sec + self.nanos_since_epoch as u128
    }

    /// Whether `self` lies strictly after `other`.
    pub fn is_after(&self, other: &Timestamp) -> (after: bool)
        ensures
            after == (self.nanos() > other.nanos()),
    {
        self.total_nanos() > other.total_nanos()
    }

    /// Adds `hours` whole hours, or gives `None` when the seconds no longer
    /// fit in 64 bits.
    pub fn plus_hours(&self, hours: u64) -> (later: Option<Timestamp>)
        ensures
            later == self.hours_later(hours),
            later matches Some(t) ==> t.nanos() == self.nanos() + hours * SECS_PER_HOUR
                * NANOS_PER_SEC,
    {
        proof {
            if self.hours_later(hours) is Some {
                lemma_hours_later_nanos(*self, hours);
            }
        }
        match SECS_PER_HOUR.checked_mul(hours) {
            Some(secs) => match self.secs_since_epoch.checked_add(secs) {
                Some(total) => Some(
                    Timestamp {
                        secs_since_epoch: total,
                        nanos_since_epoch: self.nanos_since_epoch,
                    },
                ),
                None => None,
            },
            None => None,
        }
    }
}

/// Adding hours moves an instant forward by exactly that many hours.
pub proof fn lemma_hours_later_nanos(t: Timestamp, hours: u64)
    requires
        t.hours_later(hours) is Some,
    ensures
        t.hours_later(hours).unwrap().nanos() == t.nanos() + hours * SECS_PER_HOUR * NANOS_PER_SEC,
{
    assert((t.secs_since_epoch + SECS_PER_HOUR * hours) * NANOS_PER_SEC == t.secs_since_epoch
        * NANOS_PER_SEC + hours * SECS_PER_HOUR * NANOS_PER_SEC) by (nonlinear_arith);
}

/// `std::time::SystemTime`, carried as an opaque value from the clock to its
/// conversion.
#[verifier::external_type_specification]
#[verifier::external_body]
pub struct ExSystemTime(SystemTime);

/// `SystemTime::now`: the reading of the system clock. Nothing is claimed of
/// the value; two readings may differ in either direction.
#[verifier::external_body]
fn system_time_now() -> (reading: SystemTime) {
    SystemTime::now()
}

/// `SystemTime::duration_since(UNIX_EPOCH)`, taken apart with
/// `Duration::as_secs` and `Duration::subsec_nanos`. The result is `None` when
/// the reading lies before the epoch. Trusted: the fractional part that
/// `subsec_nanos` returns is below one second.
#[verifier::external_body]
fn since_unix_epoch(reading: &SystemTime) -> (elapsed: Option<Timestamp>)
    ensures
        elapsed matches Some(t) ==> t.nanos_since_epoch < NANOS_PER_SEC,
{
    match reading.duration_since(UNIX_EPOCH) {
        Ok(d) => Some(
            Timestamp { secs_since_epoch: d.as_secs(), nanos_since_epoch: d.subsec_nanos() },
        ),
        Err(_) => None,
    }
}

/// The current instant by the system clock. A clock that stands before the
/// epoch reads as the epoch.
pub fn now() -> (t: Timestamp)
    ensures
        t.nanos_since_epoch < NANOS_PER_SEC,
{
    let reading = system_time_now();
    instant_of(since_unix_epoch(&reading))
}

/// The instant that a reading of the clock stands for: the time elapsed
/// since the epoch where there is one, the epoch itself where the reading
/// lies before it.
pub open spec fn instant_of_reading(elapsed: Option<Timestamp>) -> Timestamp {
    match elapsed {
        Some(t) => t,
        None => Timestamp { secs_since_epoch: 0, nanos_since_epoch: 0 },
    }
}

/// Turns what the clock gave into an instant, see [`instant_of_reading`].
pub fn instant_of(elapsed: Option<Timestamp>) -> (t: Timestamp)
    ensures
        t == instant_of_reading(elapsed),
{
    match elapsed {
        Some(t) => t,
        None => Timestamp::epoch(),
    }
}

} // verus!
