//! Spans of time, readings of a monotonic clock, and the clocks themselves.

use vstd::prelude::*;

verus! {

/// Nanoseconds in one second.
pub const NANOS_PER_SEC: u128 = 1_000_000_000;

/// Nanoseconds in one millisecond.
pub const NANOS_PER_MILLI: u128 = 1_000_000;

/// A span of time, in nanoseconds.
#[derive(Debug, Clone, Copy, PartialEq, Eq, Structural)]
pub struct Duration {
    pub nanos: u128,
}

impl View for Duration {
    type V = nat;

    open spec fn view(&self) -> nat {
        self.nanos as nat
    }
}

impl Duration {
    /// A span of whole seconds.
    pub fn from_secs(secs: u64) -> (d: Duration)
        ensures
            d@ == secs * 1_000_000_000,
    {
        Duration { nanos: secs as u128 * NANOS_PER_SEC }
    }

    /// A span of whole milliseconds.
    pub fn from_millis(millis: u64) -> (d: Duration)
        ensures
            d@ == millis * 1_000_000,
    {
        Duration { nanos: millis as u128 * NANOS_PER_MILLI }
    }

    /// A span of nanoseconds.
    pub fn from_nanos(nanos: u128) -> (d: Duration)
        ensures
            d@ == nanos,
    {
        Duration { nanos }
    }

    /// The whole seconds in the span, modulo 2 to the 64.
    pub fn as_secs(&self) -> (secs: u64)
        ensures
            secs == (self@ / 1_000_000_000) % 0x1_0000_0000_0000_0000,
    {
        ((self.nanos / NANOS_PER_SEC) % 0x1_0000_0000_0000_0000) as u64
    }

    /// The whole milliseconds in the span.
    pub fn as_millis(&self) -> (millis: u128)
        ensures
            millis == self@ / 1_000_000,
    {
        self.nanos / NANOS_PER_MILLI
    }

    /// The whole milliseconds in the span, modulo 2 to the 64.
    pub fn as_millis_u64(&self) -> (millis: u64)
        ensures
            millis == (self@ / 1_000_000) % 0x1_0000_0000_0000_0000,
    {
        (self.as_millis() % 0x1_0000_0000_0000_0000) as u64
    }
}

/// A reading of a monotonic clock: the nanoseconds since that clock started.
#[derive(Debug, Clone, Copy, PartialEq, Eq, Structural)]
pub struct Instant {
    pub nanos: u128,
}

impl View for Instant {
    type V = nat;

    open spec fn view(&self) -> nat {
        self.nanos as nat
    }
}

/// The time from `earlier` to `now`, and none if `earlier` is not earlier.
pub open spec fn elapsed(earlier: nat, now: nat) -> nat {
    if earlier <= now {
        (now - earlier) as nat
    } else {
        0
    }
}

/// The time from an earlier reading to a later one makes up the difference; no time
/// passes backwards.
pub proof fn law_elapsed(earlier: nat, passed: nat)
    ensures
        elapsed(earlier, earlier + passed) == passed,
        elapsed(earlier + passed, earlier) == 0,
{
}

impl Instant {
    /// The time from `earlier` to this reading; zero if `earlier` is later.
    pub fn duration_since(&self, earlier: Instant) -> (d: Duration)
        ensures
            d@ == elapsed(earlier@, self@),
            earlier@ <= self@ ==> earlier@ + d@ == self@,
            earlier@ >= self@ ==> d@ == 0,
    {
        if earlier.nanos <= self.nanos {
            Duration { nanos: self.nanos - earlier.nanos }
        } else {
            Duration { nanos: 0 }
        }
    }
}

/// The monotonic clock of the standard library.
#[verifier::external_type_specification]
#[verifier::external_body]
pub struct ExInstant(std::time::Instant);

/// A monotonic clock, whose readings count from its start.
#[derive(Debug, Clone, Copy)]
pub struct Clock {
    origin: std::time::Instant,
}

/// The monotonic clock of the standard library was read, and showed `now`.
pub uninterp spec fn monotonic_showed(now: std::time::Instant) -> bool;

/// `std::time::Instant::now`: what it returns was read off the clock. Which
/// reading it is is left unsaid: it is the time.
#[verifier::external_body]
fn monotonic_now() -> (now: std::time::Instant)
    ensures
        monotonic_showed(now),
{
    std::time::Instant::now()
}

/// The whole seconds in a span of so many nanoseconds are a 64-bit number, as
/// they are in every span of the standard library.
pub open spec fn secs_fit(nanos: nat) -> bool {
    nanos / 1_000_000_000 < 0x1_0000_0000_0000_0000
}

/// The time since a reading of the monotonic clock was measured, and was so many
/// nanoseconds.
pub uninterp spec fn passed_since(origin: std::time::Instant, nanos: u128) -> bool;

/// `std::time::Instant::elapsed`, in nanoseconds: what it returns was measured
/// from this reading. A span of the standard library is a 64-bit number of
/// seconds and a part of a second. How long the span is depends on the time of
/// the call, and is left unsaid.
#[verifier::external_body]
fn nanos_since(origin: &std::time::Instant) -> (nanos: u128)
    ensures
        passed_since(*origin, nanos),
        secs_fit(nanos as nat),
{
    origin.elapsed().as_nanos()
}

/// The wall clock of the standard library.
#[verifier::external_type_specification]
#[verifier::external_body]
pub struct ExSystemTime(std::time::SystemTime);

/// The wall clock of the standard library was read, and showed `now`.
pub uninterp spec fn wall_clock_showed(now: std::time::SystemTime) -> bool;

/// `std::time::SystemTime::now`: what it returns was read off the clock. Which
/// reading it is is left unsaid: it is the time.
#[verifier::external_body]
fn wall_clock_now() -> (now: std::time::SystemTime)
    ensures
        wall_clock_showed(now),
{
    std::time::SystemTime::now()
}

/// The nanoseconds from the Unix epoch to a reading of the wall clock; none for
/// a reading before the epoch.
pub uninterp spec fn nanos_since_epoch(now: std::time::SystemTime) -> Option<u128>;

/// `std::time::SystemTime::duration_since` the Unix epoch, in nanoseconds: a
/// function of the reading. A span of the standard library is a 64-bit number of
/// seconds and a part of a second.
#[verifier::external_body]
fn since_epoch(now: &std::time::SystemTime) -> (r: Option<u128>)
    ensures
        r == nanos_since_epoch(*now),
        r matches Some(nanos) ==> secs_fit(nanos as nat),
{
    now.duration_since(std::time::UNIX_EPOCH).ok().map(|d| d.as_nanos())
}

impl Clock {
    /// The reading of the monotonic clock from which this clock counts.
    pub closed spec fn origin(&self) -> std::time::Instant {
        self.origin
    }

    /// The clock was started by a reading of the monotonic clock.
    pub closed spec fn started(&self) -> bool {
        monotonic_showed(self.origin)
    }

    /// The clock was read, and showed `now`.
    pub closed spec fn reads(&self, now: nat) -> bool {
        exists|nanos: u128| #[trigger] passed_since(self.origin, nanos) && now == nanos
    }

    /// A clock that starts now.
    pub fn start() -> (c: Clock)
        ensures
            c.started(),
            monotonic_showed(c.origin()),
    {
        Clock { origin: monotonic_now() }
    }

    /// The current reading. Its whole seconds are a 64-bit number.
    pub fn now(&self) -> (now: Instant)
        ensures
            self.reads(now@),
            passed_since(self.origin(), now.nanos),
            secs_fit(now@),
            now@ / 1_000_000_000 < 0x1_0000_0000_0000_0000,
    {
        Instant { nanos: nanos_since(&self.origin) }
    }
}

/// A reading of a clock is a time that was measured since the clock's own start, and
/// the start is a reading of the monotonic clock.
pub proof fn law_clock(clock: Clock, now: nat)
    ensures
        clock.reads(now) ==> exists|nanos: u128| #[trigger]
            passed_since(clock.origin(), nanos) && now == nanos,
        clock.started() ==> monotonic_showed(clock.origin()),
{
}

/// Some clock was started, and later showed this span since its start.
pub open spec fn measured(nanos: nat) -> bool {
    exists|clock: Clock| clock.started() && #[trigger] clock.reads(nanos)
}

/// A span that was measured is the reading of a clock that was started.
pub proof fn law_measured(nanos: nat)
    requires
        measured(nanos),
    ensures
        exists|clock: Clock| clock.started() && #[trigger] clock.reads(nanos),
{
}

/// The span from the Unix epoch to a reading of the wall clock; none at all for a
/// reading before the epoch.
pub open spec fn unix_span(now: std::time::SystemTime) -> nat {
    match nanos_since_epoch(now) {
        Some(nanos) => nanos as nat,
        None => 0,
    }
}

/// The span to a reading after the epoch is the time that passed since, and that to
/// a reading before it is zero.
pub proof fn law_unix_span(now: std::time::SystemTime)
    ensures
        nanos_since_epoch(now) matches Some(nanos) ==> unix_span(now) == nanos,
        nanos_since_epoch(now) is None ==> unix_span(now) == 0,
{
}

/// The wall-clock time, since the Unix epoch, and zero before it. Its whole
/// seconds are a 64-bit number, so that none is lost where they are taken as one.
pub fn unix_time() -> (d: Duration)
    ensures
        exists|now: std::time::SystemTime|
            wall_clock_showed(now) && d@ == #[trigger] unix_span(now),
        exists|now: std::time::SystemTime|
            wall_clock_showed(now) && (#[trigger] nanos_since_epoch(now) matches Some(nanos)
                ==> d@ == nanos) && (nanos_since_epoch(now) is None ==> d@ == 0),
        secs_fit(d@),
        d@ / 1_000_000_000 < 0x1_0000_0000_0000_0000,
{
    let now = wall_clock_now();
    match since_epoch(&now) {
        Some(nanos) => {
            assert(unix_span(now) == nanos);
            Duration::from_nanos(nanos)
        },
        None => {
            assert(unix_span(now) == 0);
            Duration::from_nanos(0)
        },
    }
}

} // verus!
