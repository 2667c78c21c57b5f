//! Spans of time, and their representation in `struct timespec`.

use vstd::prelude::*;

use libc::time_t;

verus! {

pub const NANOS_PER_SEC: u32 = 1_000_000_000;

/// A span of time with nanosecond resolution.
///
/// Its view is its length in nanoseconds.
#[derive(Clone, Copy, Debug, PartialEq, Eq)]
pub struct Duration {
    secs: u64,
    nanos: u32,
}

impl View for Duration {
    type V = nat;

    closed spec fn view(&self) -> nat {
        (self.secs * NANOS_PER_SEC + self.nanos) as nat
    }
}

impl Duration {
    #[verifier::type_invariant]
    spec fn normalized(self) -> bool {
        self.nanos < NANOS_PER_SEC
    }

    /// The duration of `secs` whole seconds and `nanos` nanoseconds.
    pub fn new(secs: u64, nanos: u32) -> (d: Duration)
        requires
            nanos < NANOS_PER_SEC,
        ensures
            d@ == secs * NANOS_PER_SEC + nanos,
    {
        Duration { secs, nanos }
    }

    /// The number of whole seconds.
    pub fn as_secs(&self) -> (secs: u64)
        ensures
            secs == whole_secs(self@),
    {
        proof {
            use_type_invariant(self);
        }
        self.secs
    }

    /// What is left of the duration after its whole seconds, in nanoseconds.
    pub fn subsec_nanos(&self) -> (nanos: u32)
        ensures
            nanos == subsec_nanos(self@),
            nanos < NANOS_PER_SEC,
    {
        proof {
            use_type_invariant(self);
        }
        self.nanos
    }

    /// The number of nanoseconds.
    pub fn as_nanos(&self) -> (nanos: u128)
        ensures
            nanos == self@,
    {
        proof {
            use_type_invariant(self);
        }
        self.secs as u128 * 1_000_000_000 + self.nanos as u128
    }

    /// The duration, or a nanosecond if it is zero.
    pub fn or_nanosecond(self) -> (d: Duration)
        ensures
            d@ == or_nanosecond(self@),
    {
        if self.secs == 0 && self.nanos == 0 {
            Duration { secs: 0, nanos: 1 }
        } else {
            self
        }
    }
}

/// `nanos`, or 1 if it is zero.
pub open spec fn or_nanosecond(nanos: nat) -> nat {
    if nanos == 0 {
        1
    } else {
        nanos
    }
}

/// The whole seconds in `nanos` nanoseconds.
pub open spec fn whole_secs(nanos: nat) -> nat {
    nanos / (NANOS_PER_SEC as nat)
}

/// The nanoseconds in `nanos` beyond the whole seconds.
pub open spec fn subsec_nanos(nanos: nat) -> nat {
    nanos % (NANOS_PER_SEC as nat)
}

/// The fields of a `struct timespec`.
#[derive(Clone, Copy, Debug, PartialEq, Eq, Structural)]
pub struct TimeSpec {
    pub tv_sec: time_t,
    pub tv_nsec: i64,
}

impl TimeSpec {
    /// The `timespec` of a duration of `nanos` nanoseconds.
    ///
    /// Seconds that the system's `time_t` cannot hold are cast to it.
    pub open spec fn of(nanos: nat) -> TimeSpec {
        TimeSpec { tv_sec: whole_secs(nanos) as time_t, tv_nsec: subsec_nanos(nanos) as i64 }
    }

    /// Whether the operating system accepts this value as a span of time.
    pub open spec fn valid(self) -> bool {
        &&& 0 <= self.tv_sec
        &&& 0 <= self.tv_nsec < NANOS_PER_SEC
    }

    /// The span of time, in nanoseconds.
    pub open spec fn nanos(self) -> int {
        self.tv_sec * NANOS_PER_SEC + self.tv_nsec
    }

    /// Converts a duration.
    pub fn from_duration(duration: Duration) -> (ts: TimeSpec)
        ensures
            ts == TimeSpec::of(duration@),
    {
        TimeSpec {
            tv_sec: #[verifier::truncate] (duration.as_secs() as time_t),
            tv_nsec: duration.subsec_nanos() as i64,
        }
    }
}

/// A duration whose whole seconds fit the system's `time_t` is represented exactly.
pub proof fn law_timespec_is_exact(nanos: nat)
    requires
        whole_secs(nanos) <= time_t::MAX,
    ensures
        TimeSpec::of(nanos).valid(),
        TimeSpec::of(nanos).nanos() == nanos,
{
}

/// A duration is made of its whole seconds and of less than a second beyond them.
pub proof fn law_seconds_and_nanoseconds_make_the_whole(nanos: nat)
    ensures
        whole_secs(nanos) * 1_000_000_000 + subsec_nanos(nanos) == nanos,
        subsec_nanos(nanos) < 1_000_000_000,
{
}

/// What a duration is made of is what it gives back.
pub proof fn law_duration_gives_back_what_it_is_made_of(
    secs: u64,
    nanos: u32,
    duration: Duration,
    given_secs: u64,
    given_nanos: u32,
    whole: u128,
)
    requires
        nanos < 1_000_000_000,
        call_ensures(Duration::new, (secs, nanos), duration),
        call_ensures(Duration::as_secs, (&duration,), given_secs),
        call_ensures(Duration::subsec_nanos, (&duration,), given_nanos),
        call_ensures(Duration::as_nanos, (&duration,), whole),
    ensures
        given_secs == secs,
        given_nanos == nanos,
        whole == secs * 1_000_000_000 + nanos,
{
}

/// A duration that is not zero is left as it is, and zero becomes one nanosecond.
pub proof fn law_only_zero_is_lengthened(duration: Duration, changed: Duration)
    requires
        call_ensures(Duration::or_nanosecond, (duration,), changed),
    ensures
        duration@ > 0 ==> changed@ == duration@,
        duration@ == 0 ==> changed@ == 1,
{
}

/// The system is either told the exact span or refuses it: seconds that its `time_t` cannot hold do
/// not turn into a shorter span.
pub proof fn law_accepted_span_is_exact(duration: Duration, ts: TimeSpec)
    requires
        whole_secs(duration@) <= u64::MAX,
        call_ensures(TimeSpec::from_duration, (duration,), ts),
    ensures
        ts.valid() <==> whole_secs(duration@) <= time_t::MAX,
        ts.valid() ==> ts.nanos() == duration@,
{
    let secs = whole_secs(duration@) as u64;
    assert(secs > i64::MAX ==> (secs as i64) < 0) by (bit_vector);
    if whole_secs(duration@) <= time_t::MAX {
        law_timespec_is_exact(duration@);
    }
}

} // verus!
