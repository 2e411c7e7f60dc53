//! One clock, four readings.
//!
//! `steady_ns` and `monotonic_ns` are one reading under two names, and so are
//! `wall_ns` and `unix_ns`: an interval measured on a clock that a time daemon
//! steps fires a guard on a healthy connection, and a monotonic reading in a
//! wire timestamp is not a timestamp. [`Clock`] is both pairs on one object, so
//! the two names of a pair cannot come from different origins.

use vstd::prelude::*;

use crate::duration;
use crate::duration::Duration;

verus! {

/// The publisher's clock.
pub trait Clock {
    /// Stamps a payload's arrival.
    fn wall_ns(&self) -> u64;

    /// Measures the idle budget and the backoff.
    fn steady_ns(&self) -> u64;

    /// Paces the definition cycle.
    fn monotonic_ns(&self) -> u64;

    /// A manifest's own timestamp.
    fn unix_ns(&self) -> u64;
}

/// A point on the host's monotonic clock, carried as it is.
#[verifier::external_type_specification]
#[verifier::external_body]
pub struct HostInstant(std::time::Instant);

/// Calls `std::time::Instant::now`. Nothing is claimed of the moment.
#[verifier::external_body]
fn host_instant() -> std::time::Instant {
    std::time::Instant::now()
}

/// Calls `std::time::Instant::elapsed` and hands out the span in nanoseconds.
/// Nothing is claimed of how long it was: the host's clock decides it.
#[verifier::external_body]
fn host_elapsed(origin: &std::time::Instant) -> u128 {
    origin.elapsed().as_nanos()
}

/// Calls `std::time::SystemTime::elapsed` on the Unix epoch and hands out the
/// span in nanoseconds, `None` for a host clock set before it. Nothing is claimed
/// of how long it was: the host's clock decides it.
#[verifier::external_body]
fn host_since_epoch() -> Option<u128> {
    match std::time::UNIX_EPOCH.elapsed() {
        Ok(since) => Some(since.as_nanos()),
        Err(_) => None,
    }
}

/// A count of nanoseconds as a 64-bit reading holds it.
pub fn reading(nanos: u128) -> (held: u64)
    ensures
        held == duration::clamped(nanos as nat),
{
    if nanos <= u64::MAX as u128 {
        nanos as u64
    } else {
        u64::MAX
    }
}

/// What a Unix reading is of a time since the epoch: a clock set before 1970 has
/// no sensible one, and zero at least sorts before every real timestamp.
pub open spec fn unix_held(since_epoch: Option<u128>) -> u64 {
    match since_epoch {
        None => 0,
        Some(nanos) => duration::clamped(nanos as nat),
    }
}

/// A host's Unix reading.
pub fn unix_reading(since_epoch: Option<u128>) -> (held: u64)
    ensures
        held == unix_held(since_epoch),
{
    match since_epoch {
        None => 0,
        Some(nanos) => reading(nanos),
    }
}

/// The host's clocks. The monotonic origin is taken once, at construction.
#[derive(Debug)]
pub struct SystemClock {
    origin: std::time::Instant,
}

// What the host answers is known only as an answer of the call it came from. The
// readings below are stated over that, so each is tied to the clock and the
// origin it was taken from. The calls are made through a value of the function,
// which is what makes their answers known as such.

/// Whether the host may answer that a point of its monotonic clock is now.
pub closed spec fn may_be_now(instant: std::time::Instant) -> bool {
    call_ensures(host_instant, (), instant)
}

/// Whether the host may measure this many nanoseconds from a point of its
/// monotonic clock to now.
pub closed spec fn may_have_elapsed(origin: std::time::Instant, nanos: u128) -> bool {
    call_ensures(host_elapsed, (&origin,), nanos)
}

/// Whether the host may answer that Unix time has come this far.
pub closed spec fn may_be_unix_time(since_epoch: Option<u128>) -> bool {
    call_ensures(host_since_epoch, (), since_epoch)
}

/// Whether a number is a Unix reading: a time the host may tell, as
/// [`unix_reading`] holds it.
pub open spec fn is_unix_reading(held: u64) -> bool {
    exists|since_epoch: Option<u128>| #[trigger]
        may_be_unix_time(since_epoch) && held == unix_held(since_epoch)
}

impl SystemClock {
    /// The point every monotonic reading of this clock counts from.
    pub closed spec fn origin(&self) -> std::time::Instant {
        self.origin
    }

    /// Whether a number is a monotonic reading of this clock: a span the host may
    /// measure from its origin, as [`reading`] holds it.
    pub open spec fn is_monotonic_reading(&self, held: u64) -> bool {
        exists|nanos: u128| #[trigger]
            may_have_elapsed(self.origin(), nanos) && held == duration::clamped(nanos as nat)
    }

    /// The host's clocks, with the monotonic reading starting now.
    pub fn new() -> (clock: Self)
        ensures
            may_be_now(clock.origin()),
    {
        let now = host_instant;
        Self { origin: now() }
    }

    /// Nanoseconds since this clock was made.
    pub fn elapsed_ns(&self) -> (held: u64)
        ensures
            self.is_monotonic_reading(held),
    {
        let elapsed = host_elapsed;
        let nanos: u128 = elapsed(&self.origin);
        proof {
            assert(may_have_elapsed(self.origin(), nanos));
        }
        reading(nanos)
    }

    /// Nanoseconds of Unix time.
    pub fn unix(&self) -> (held: u64)
        ensures
            is_unix_reading(held),
    {
        let elapsed = host_since_epoch;
        let since_epoch: Option<u128> = elapsed();
        proof {
            assert(may_be_unix_time(since_epoch));
        }
        unix_reading(since_epoch)
    }
}

impl Default for SystemClock {
    fn default() -> (clock: Self)
        ensures
            may_be_now(clock.origin()),
    {
        Self::new()
    }
}

/// Every clone counts from one origin: two origins would be two monotonic
/// timelines, and the definition pacer and the idle guard would be measuring
/// against different ones.
impl Clone for SystemClock {
    fn clone(&self) -> (copy: Self)
        ensures
            copy.origin() == self.origin(),
    {
        Self { origin: self.origin }
    }
}

impl Clock for SystemClock {
    fn wall_ns(&self) -> (held: u64)
        ensures
            is_unix_reading(held),
    {
        self.unix()
    }

    fn steady_ns(&self) -> (held: u64)
        ensures
            self.is_monotonic_reading(held),
    {
        self.elapsed_ns()
    }

    fn monotonic_ns(&self) -> (held: u64)
        ensures
            self.is_monotonic_reading(held),
    {
        self.elapsed_ns()
    }

    fn unix_ns(&self) -> (held: u64)
        ensures
            is_unix_reading(held),
    {
        self.unix()
    }
}

/// A clock a caller sets by hand: for tests, and for a re-run over an archive,
/// where the times that matter are the ones the archive recorded.
///
/// This is the one handle onto its readings, and it is not copied: two holders
/// of one clock see the same time, so what several of them hold is a shared
/// reference to this.
#[derive(Debug)]
pub struct ManualClock {
    monotonic_ns: u64,
    unix_ns: u64,
}

/// A clock's two readings.
pub struct Readings {
    pub monotonic_ns: u64,
    pub unix_ns: u64,
}

impl View for ManualClock {
    type V = Readings;

    closed spec fn view(&self) -> Readings {
        Readings { monotonic_ns: self.monotonic_ns, unix_ns: self.unix_ns }
    }
}

impl ManualClock {
    /// Both readings at zero.
    pub fn new() -> (clock: Self)
        ensures
            clock@ == (Readings { monotonic_ns: 0, unix_ns: 0 }),
    {
        Self { monotonic_ns: 0, unix_ns: 0 }
    }

    /// Both readings at a stated Unix time.
    pub fn at_unix_ns(unix_ns: u64) -> (clock: Self)
        ensures
            clock@ == (Readings { monotonic_ns: unix_ns, unix_ns }),
    {
        Self { monotonic_ns: unix_ns, unix_ns }
    }

    /// Move both readings forward, which is what time passing looks like.
    pub fn advance(&mut self, by: Duration)
        ensures
            final(self)@ == (Readings {
                monotonic_ns: duration::moved_on(old(self)@.monotonic_ns, by@),
                unix_ns: duration::moved_on(old(self)@.unix_ns, by@),
            }),
    {
        let by: u64 = by.as_nanos_clamped();
        self.monotonic_ns = self.monotonic_ns.saturating_add(by);
        self.unix_ns = self.unix_ns.saturating_add(by);
    }

    /// Move the Unix reading and leave the monotonic one, which is what a clock
    /// step looks like.
    pub fn step_unix_ns(&mut self, unix_ns: u64)
        ensures
            final(self)@ == (Readings { unix_ns, ..old(self)@ }),
    {
        self.unix_ns = unix_ns;
    }
}

impl Default for ManualClock {
    fn default() -> (clock: Self)
        ensures
            clock@ == (Readings { monotonic_ns: 0, unix_ns: 0 }),
    {
        Self::new()
    }
}

impl Clock for ManualClock {
    fn wall_ns(&self) -> (reading: u64)
        ensures
            reading == self@.unix_ns,
    {
        self.unix_ns
    }

    fn steady_ns(&self) -> (reading: u64)
        ensures
            reading == self@.monotonic_ns,
    {
        self.monotonic_ns
    }

    fn monotonic_ns(&self) -> (reading: u64)
        ensures
            reading == self@.monotonic_ns,
    {
        self.monotonic_ns
    }

    fn unix_ns(&self) -> (reading: u64)
        ensures
            reading == self@.unix_ns,
    {
        self.unix_ns
    }
}

/// A manual clock that is advanced does not go backwards and does not wrap.
pub proof fn advancing_never_goes_back(reading: u64, by: nat)
    ensures
        reading <= duration::moved_on(reading, by) <= u64::MAX,
        reading + by <= u64::MAX ==> duration::moved_on(reading, by) == reading + by,
{
}

/// A Unix reading is the time since the epoch, and zero for a host set before it.
pub proof fn a_unix_reading_is_the_time_since_the_epoch(nanos: u128)
    ensures
        unix_held(None) == 0,
        nanos <= u64::MAX ==> unix_held(Some(nanos)) == nanos,
        nanos > u64::MAX ==> unix_held(Some(nanos)) == u64::MAX,
{
}

} // verus!
