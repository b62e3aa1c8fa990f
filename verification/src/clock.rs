//! Clocks: the real one, and a fake one that tests move forward by hand.
use std::time::{Duration, Instant, SystemTime};
use vstd::prelude::*;

use crate::duration::duration_nanos;

verus! {

/// A point in monotonic time, from `std::time::Instant`.
#[verifier::external_type_specification]
#[verifier::external_body]
pub struct ExInstant(Instant);

/// A point in wall-clock time, from `std::time::SystemTime`.
#[verifier::external_type_specification]
#[verifier::external_body]
pub struct ExSystemTime(SystemTime);

/// The current monotonic time, from `Instant::now`; nothing is known of it.
#[verifier::external_body]
pub(crate) fn instant_now() -> Instant {
    Instant::now()
}

/// The current wall-clock time, from `SystemTime::now`; nothing is known
/// of it.
#[verifier::external_body]
fn system_now() -> SystemTime {
    SystemTime::now()
}

/// The instant `d` after `i` as `Instant::checked_add` gives it, if it can
/// be represented.
pub uninterp spec fn instant_plus(i: Instant, d: Duration) -> Option<Instant>;

/// The wall-clock time `d` after `t` as `SystemTime::checked_add` gives it,
/// if it can be represented.
pub uninterp spec fn system_time_plus(t: SystemTime, d: Duration) -> Option<SystemTime>;

/// `Instant::checked_add`: `instant` moved forward by `d`, or nothing where
/// that cannot be represented; moving by nothing gives `instant` itself.
/// Its result is named `instant_plus`.
#[verifier::external_body]
fn instant_checked_add(instant: Instant, d: Duration) -> (r: Option<Instant>)
    ensures
        r == instant_plus(instant, d),
        duration_nanos(d) == 0 ==> r == Some(instant),
{
    instant.checked_add(d)
}

/// `SystemTime::checked_add`: `time` moved forward by `d`, or nothing where
/// that cannot be represented; moving by nothing gives `time` itself. Its
/// result is named `system_time_plus`.
#[verifier::external_body]
fn system_checked_add(time: SystemTime, d: Duration) -> (r: Option<SystemTime>)
    ensures
        r == system_time_plus(time, d),
        duration_nanos(d) == 0 ==> r == Some(time),
{
    time.checked_add(d)
}

/// The longest `Duration`, in nanoseconds.
pub open spec fn max_duration_nanos() -> nat {
    18446744073709551615 * 1_000_000_000 + 999_999_999
}

/// `Duration::checked_add` gives the sum of two durations, or `None` when
/// it exceeds the longest duration.
pub assume_specification[ core::time::Duration::checked_add ](a: Duration, b: Duration) -> (r: Option<Duration>)
    ensures
        r is Some <==> duration_nanos(a) + duration_nanos(b) <= max_duration_nanos(),
        r matches Some(s) ==> duration_nanos(s) == duration_nanos(a) + duration_nanos(b),
;

/// A source of the current time.
pub trait Clock {
    /// The current monotonic time.
    fn now(&self) -> Instant;

    /// The current wall-clock time.
    fn system_time(&self) -> SystemTime;
}

/// The machine's clock.
pub struct RealClock;

impl Clock for RealClock {
    fn now(&self) -> Instant {
        instant_now()
    }

    fn system_time(&self) -> SystemTime {
        system_now()
    }
}

/// A clock that stands still until it is moved forward: the time at its
/// creation plus the offset that it was moved by.
pub struct FakeClock {
    origin: Instant,
    system_origin: SystemTime,
    offset: Duration,
}

impl FakeClock {
    /// The clock's times can be represented: its creation times moved
    /// forward by its offset.
    #[verifier::type_invariant]
    closed spec fn times_representable(self) -> bool {
        &&& instant_plus(self.origin, self.offset) is Some
        &&& system_time_plus(self.system_origin, self.offset) is Some
    }

    /// The monotonic time at the clock's creation.
    pub closed spec fn spec_origin(&self) -> Instant {
        self.origin
    }

    /// The wall-clock time at the clock's creation.
    pub closed spec fn spec_system_origin(&self) -> SystemTime {
        self.system_origin
    }

    /// How far the clock has been moved forward.
    pub closed spec fn spec_offset(&self) -> Duration {
        self.offset
    }

    /// Whether both creation times moved forward by `d` can be represented.
    pub open spec fn representable_after(&self, d: Duration) -> bool {
        &&& instant_plus(self.spec_origin(), d) is Some
        &&& system_time_plus(self.spec_system_origin(), d) is Some
    }

    /// A clock at the current time, not moved yet.
    pub fn new() -> (r: Self)
        ensures
            duration_nanos(r.spec_offset()) == 0,
    {
        let origin = instant_now();
        let system_origin = system_now();
        let offset = Duration::from_nanos(0);
        let a = instant_checked_add(origin, offset);
        let b = system_checked_add(system_origin, offset);
        assert(a is Some && b is Some);
        Self { origin, system_origin, offset }
    }

    /// How far the clock has been moved forward.
    pub fn offset(&self) -> (r: Duration)
        ensures
            r == self.spec_offset(),
    {
        self.offset
    }

    /// Moves the clock forward by `duration`, where the times moved that
    /// far can be represented; otherwise the clock stays where it is.
    pub fn advance(&mut self, duration: Duration)
        requires
            duration_nanos(old(self).spec_offset()) + duration_nanos(duration) <= max_duration_nanos(),
        ensures
            final(self).spec_origin() == old(self).spec_origin(),
            final(self).spec_system_origin() == old(self).spec_system_origin(),
            final(self).spec_offset() == old(self).spec_offset() || duration_nanos(final(self).spec_offset())
                == duration_nanos(old(self).spec_offset()) + duration_nanos(duration),
            final(self).spec_offset() != old(self).spec_offset() ==> old(self).representable_after(
                final(self).spec_offset(),
            ),
            (final(self).spec_offset() == old(self).spec_offset() && duration_nanos(duration) > 0) ==> exists|s: Duration|
                duration_nanos(s) == duration_nanos(old(self).spec_offset()) + duration_nanos(duration)
                    && !old(self).representable_after(s),
    {
        match self.offset.checked_add(duration) {
            Some(s) => {
                let a = instant_checked_add(self.origin, s);
                let b = system_checked_add(self.system_origin, s);
                if a.is_some() && b.is_some() {
                    self.offset = s;
                } else {
                    assert(!old(self).representable_after(s));
                }
            },
            None => {},
        }
    }
}

impl Clock for FakeClock {
    /// The creation instant moved forward by the offset.
    fn now(&self) -> (r: Instant)
        ensures
            instant_plus(self.spec_origin(), self.spec_offset()) == Some(r),
    {
        proof {
            use_type_invariant(self);
        }
        match instant_checked_add(self.origin, self.offset) {
            Some(t) => t,
            None => self.origin,
        }
    }

    /// The wall-clock creation time moved forward by the offset.
    fn system_time(&self) -> (r: SystemTime)
        ensures
            system_time_plus(self.spec_system_origin(), self.spec_offset()) == Some(r),
    {
        proof {
            use_type_invariant(self);
        }
        match system_checked_add(self.system_origin, self.offset) {
            Some(t) => t,
            None => self.system_origin,
        }
    }
}

} // verus!
