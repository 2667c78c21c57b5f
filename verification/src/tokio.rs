//! Timers for the tokio ecosystem.

use vstd::prelude::*;

use crate::backend;
use crate::backend::{Backend, DelayedStart};
use crate::poll::Next;
use crate::procedure::{Procedure, Progress, Step};
use crate::time::Duration;

verus! {

/// The clock that a timer follows.
#[derive(Clone, Copy, Debug, PartialEq, Eq, Structural)]
pub enum ClockType {
    /// Increases monotonically, excluding system sleep time.
    IgnoreSleep,
    /// Increases monotonically, including system sleep time.
    TrackSleep,
}

impl Default for ClockType {
    fn default() -> (clock: ClockType)
        ensures
            clock == ClockType::IgnoreSleep,
    {
        ClockType::IgnoreSleep
    }
}

impl ClockType {
    /// Whether the clock advances while the system sleeps.
    pub open spec fn tracks_sleep(self) -> bool {
        self is TrackSleep
    }

    /// Whether the clock advances while the system sleeps.
    pub fn include_system_sleep(self) -> (included: bool)
        ensures
            included == self.tracks_sleep(),
    {
        match self {
            ClockType::IgnoreSleep => false,
            ClockType::TrackSleep => true,
        }
    }

    /// A sleep that ends when `duration` has passed.
    pub fn sleep<B: Backend, E>(&self, duration: Duration) -> (progress: Progress<B::Op, Sleep, E>)
        ensures
            progress.is_at(
                backend::open_steps::<B>(
                    self.tracks_sleep(),
                    B::one_shot_steps(self.tracks_sleep(), duration@),
                ),
                Sleep::on(*self),
            ),
    {
        let arm: Vec<Step<B::Op>> = B::one_shot(self.include_system_sleep(), duration);
        let steps: Vec<Step<B::Op>> = backend::open::<B>(self.include_system_sleep(), arm);
        Procedure::start(steps, Sleep { clock: *self })
    }

    /// An interval that completes each time `duration` has passed. Completions that nobody awaited
    /// in time are skipped.
    pub fn interval<B: Backend, E>(&self, duration: Duration) -> (progress: Progress<
        B::Op,
        Interval,
        E,
    >)
        ensures
            progress.is_at(
                backend::open_steps::<B>(
                    self.tracks_sleep(),
                    B::interval_steps(self.tracks_sleep(), duration@),
                ),
                Interval::on(*self, duration),
            ),
    {
        let arm: Vec<Step<B::Op>> = B::interval(self.include_system_sleep(), duration);
        let steps: Vec<Step<B::Op>> = backend::open::<B>(self.include_system_sleep(), arm);
        Procedure::start(steps, Interval { clock: *self, duration })
    }

    /// Like [`ClockType::interval`], but completes for the first time when `delay_until_start` has
    /// passed.
    pub fn interval_at<B: DelayedStart, E>(
        &self,
        delay_until_start: Duration,
        duration: Duration,
    ) -> (progress: Progress<B::Op, Interval, E>)
        ensures
            progress.is_at(
                backend::open_steps::<B>(
                    self.tracks_sleep(),
                    B::interval_at_steps(self.tracks_sleep(), delay_until_start@, duration@),
                ),
                Interval::on(*self, duration),
            ),
    {
        let arm: Vec<Step<B::Op>> = B::interval_at(
            self.include_system_sleep(),
            delay_until_start,
            duration,
        );
        let steps: Vec<Step<B::Op>> = backend::open::<B>(self.include_system_sleep(), arm);
        Procedure::start(steps, Interval { clock: *self, duration })
    }
}

/// A timer that fires once.
#[derive(Debug)]
pub struct Sleep {
    clock: ClockType,
}

impl Sleep {
    /// The sleep on `clock`.
    pub closed spec fn on(clock: ClockType) -> Sleep {
        Sleep { clock }
    }

    /// The clock of the sleep.
    pub closed spec fn clock(self) -> ClockType {
        self.clock
    }

    /// Resets this sleep to end after `duration`, with the system resources that it holds.
    pub fn reset<B: Backend, E>(&mut self, duration: Duration) -> (progress: Progress<
        B::Op,
        (),
        E,
    >)
        ensures
            progress.is_at(
                backend::reset_steps::<B>(
                    B::one_shot_steps(old(self).clock().tracks_sleep(), duration@),
                ),
                (),
            ),
            *final(self) == *old(self),
    {
        let arm: Vec<Step<B::Op>> = B::one_shot(self.clock.include_system_sleep(), duration);
        Procedure::start(backend::reset::<B>(arm), ())
    }

    /// Begins to poll the sleep, where a reactor watches its timer: the reactor is asked first.
    pub fn poll<E>(&mut self) -> (next: Next<E>)
        ensures
            next == Next::<E>::AskReactor,
            *final(self) == *old(self),
    {
        Next::AskReactor
    }
}

/// A timer that fires again and again.
#[derive(Debug)]
pub struct Interval {
    clock: ClockType,
    duration: Duration,
}

impl Interval {
    /// The interval of `duration` on `clock`.
    pub closed spec fn on(clock: ClockType, duration: Duration) -> Interval {
        Interval { clock, duration }
    }

    /// The clock of the interval.
    pub closed spec fn clock(self) -> ClockType {
        self.clock
    }

    /// The time between two firings, in nanoseconds.
    pub closed spec fn period(self) -> nat {
        self.duration@
    }

    /// Begins to wait until the interval completes next, where a reactor watches its timer: the
    /// reactor is asked first.
    pub fn tick<E>(&mut self) -> (next: Next<E>)
        ensures
            next == Next::<E>::AskReactor,
            *final(self) == *old(self),
    {
        Next::AskReactor
    }

    /// Resets this interval to complete after the duration specified when it was created, with the
    /// system resources that it holds.
    pub fn reset<B: Backend, E>(&mut self) -> (progress: Progress<B::Op, (), E>)
        ensures
            progress.is_at(
                backend::reset_steps::<B>(
                    B::interval_steps(old(self).clock().tracks_sleep(), old(self).period()),
                ),
                (),
            ),
            *final(self) == *old(self),
    {
        let arm: Vec<Step<B::Op>> = B::interval(self.clock.include_system_sleep(), self.duration);
        Procedure::start(backend::reset::<B>(arm), ())
    }

    /// Like [`Interval::reset`], but completes for the first time when `after` has passed.
    pub fn reset_after<B: DelayedStart, E>(&mut self, after: Duration) -> (progress: Progress<
        B::Op,
        (),
        E,
    >)
        ensures
            progress.is_at(
                backend::reset_steps::<B>(
                    B::interval_at_steps(
                        old(self).clock().tracks_sleep(),
                        after@,
                        old(self).period(),
                    ),
                ),
                (),
            ),
            *final(self) == *old(self),
    {
        let arm: Vec<Step<B::Op>> = B::interval_at(
            self.clock.include_system_sleep(),
            after,
            self.duration,
        );
        Procedure::start(backend::reset::<B>(arm), ())
    }
}

/// A sleep keeps the clock that it was made for, and an interval its clock and the duration
/// specified when it was created: what a reset reads is what the creation was given.
pub proof fn law_timers_remember_their_creation(clock: ClockType, duration: Duration)
    ensures
        Sleep::on(clock).clock() == clock,
        Interval::on(clock, duration).clock() == clock,
        Interval::on(clock, duration).period() == duration@,
{
}

/// A poll of a sleep or an interval leaves them as they are, and asks the reactor before it tries
/// anything: no attempt is made on a timer that the reactor does not report.
pub proof fn law_polls_begin_with_the_reactor<E>(
    sleep: &mut Sleep,
    first: Next<E>,
    interval: &mut Interval,
    next: Next<E>,
)
    requires
        call_ensures(Sleep::poll::<E>, (sleep,), first),
        call_ensures(Interval::tick::<E>, (interval,), next),
    ensures
        first is AskReactor,
        next is AskReactor,
        final(sleep).clock() == old(sleep).clock(),
        final(interval).clock() == old(interval).clock(),
        final(interval).period() == old(interval).period(),
{
}

/// The clock that tracks sleep says so, and the other does not; the default does not.
pub proof fn law_clock_says_whether_it_tracks_sleep(
    clock: ClockType,
    included: bool,
    default: ClockType,
)
    requires
        call_ensures(ClockType::include_system_sleep, (clock,), included),
        call_ensures(ClockType::default, (), default),
    ensures
        included <==> clock is TrackSleep,
        default is IgnoreSleep,
{
}

} // verus!
