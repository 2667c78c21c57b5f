//! Timers for the smol ecosystem.

use vstd::prelude::*;

use crate::backend;
use crate::backend::{Backend, DelayedStart};
use crate::poll::{Attempt, Next, Poll, Round};
use crate::procedure::{Procedure, Progress, Step};
use crate::time::Duration;

verus! {

/// The clock that a timer follows.
#[derive(Clone, Copy, Debug, PartialEq, Eq, Structural)]
pub enum TimerType {
    /// Increases monotonically, excluding system sleep time.
    IgnoreSleep,
    /// Increases monotonically, including system sleep time.
    TrackSleep,
}

impl Default for TimerType {
    fn default() -> (ty: TimerType)
        ensures
            ty == TimerType::IgnoreSleep,
    {
        TimerType::IgnoreSleep
    }
}

impl TimerType {
    /// Whether the clock advances while the system sleeps.
    pub open spec fn tracks_sleep(self) -> bool {
        self is TrackSleep
    }

    /// Whether the clock advances while the system sleeps.
    pub fn include_system_sleep(self) -> (included: bool)
        ensures
            included == self.tracks_sleep(),
    {
        match self {
            TimerType::IgnoreSleep => false,
            TimerType::TrackSleep => true,
        }
    }

    /// A timer that fires once, when `duration` has passed.
    pub fn after<B: Backend, E>(&self, duration: Duration) -> (progress: Progress<B::Op, Timer, E>)
        ensures
            progress.is_at(
                backend::open_steps::<B>(
                    self.tracks_sleep(),
                    B::one_shot_steps(self.tracks_sleep(), duration@),
                ),
                Timer::on(*self),
            ),
    {
        let arm: Vec<Step<B::Op>> = B::one_shot(self.include_system_sleep(), duration);
        Procedure::start(backend::open::<B>(self.include_system_sleep(), arm), Timer { ty: *self })
    }

    /// A timer that fires each time `duration` has passed.
    pub fn interval<B: Backend, E>(&self, duration: Duration) -> (progress: Progress<
        B::Op,
        Timer,
        E,
    >)
        ensures
            progress.is_at(
                backend::open_steps::<B>(
                    self.tracks_sleep(),
                    B::interval_steps(self.tracks_sleep(), duration@),
                ),
                Timer::on(*self),
            ),
    {
        let arm: Vec<Step<B::Op>> = B::interval(self.include_system_sleep(), duration);
        Procedure::start(backend::open::<B>(self.include_system_sleep(), arm), Timer { ty: *self })
    }

    /// A timer that fires when `delay_until_start` has passed, and then each time `duration` has
    /// passed.
    pub fn interval_at<B: DelayedStart, E>(
        &self,
        delay_until_start: Duration,
        duration: Duration,
    ) -> (progress: Progress<B::Op, Timer, E>)
        ensures
            progress.is_at(
                backend::open_steps::<B>(
                    self.tracks_sleep(),
                    B::interval_at_steps(self.tracks_sleep(), delay_until_start@, duration@),
                ),
                Timer::on(*self),
            ),
    {
        let arm: Vec<Step<B::Op>> = B::interval_at(
            self.include_system_sleep(),
            delay_until_start,
            duration,
        );
        Procedure::start(backend::open::<B>(self.include_system_sleep(), arm), Timer { ty: *self })
    }

    /// A timer that never fires.
    pub fn never<B: Backend, E>(&self) -> (progress: Progress<B::Op, Timer, E>)
        ensures
            progress.is_at(
                backend::open_steps::<B>(self.tracks_sleep(), Seq::empty()),
                Timer::on(*self),
            ),
    {
        let arm: Vec<Step<B::Op>> = Vec::new();
        Procedure::start(backend::open::<B>(self.include_system_sleep(), arm), Timer { ty: *self })
    }
}

/// A timer, which can be awaited as a future or as a stream.
#[derive(Debug)]
pub struct Timer {
    ty: TimerType,
}

impl Timer {
    /// The timer of the type `ty`.
    pub closed spec fn on(ty: TimerType) -> Timer {
        Timer { ty }
    }

    /// The type of the timer.
    pub closed spec fn ty(self) -> TimerType {
        self.ty
    }

    /// Begins to poll the timer, where a reactor watches it: an attempt is made first.
    pub fn poll<E>(&mut self) -> (next: Next<E>)
        ensures
            next == Next::<E>::Attempt,
            *final(self) == *old(self),
    {
        Next::Attempt
    }

    /// Resets the timer to never fire and removes any pending wakeups.
    pub fn clear<B: Backend, E>(&mut self) -> (progress: Progress<B::Op, (), E>)
        ensures
            progress.is_at(B::clear_steps(), ()),
            *final(self) == *old(self),
    {
        Procedure::start(B::clear(), ())
    }

    /// Equivalent to [`TimerType::after`], but reuses resources.
    ///
    /// Any pending wakeups are cleared.
    pub fn set_after<B: Backend, E>(&mut self, duration: Duration) -> (progress: Progress<
        B::Op,
        (),
        E,
    >)
        ensures
            progress.is_at(
                backend::reset_steps::<B>(
                    B::one_shot_steps(old(self).ty().tracks_sleep(), duration@),
                ),
                (),
            ),
            *final(self) == *old(self),
    {
        let arm: Vec<Step<B::Op>> = B::one_shot(self.ty.include_system_sleep(), duration);
        Procedure::start(backend::reset::<B>(arm), ())
    }

    /// Equivalent to [`TimerType::interval`], but reuses resources.
    ///
    /// Any pending wakeups are cleared.
    pub fn set_interval<B: Backend, E>(&mut self, period: Duration) -> (progress: Progress<
        B::Op,
        (),
        E,
    >)
        ensures
            progress.is_at(
                backend::reset_steps::<B>(
                    B::interval_steps(old(self).ty().tracks_sleep(), period@),
                ),
                (),
            ),
            *final(self) == *old(self),
    {
        let arm: Vec<Step<B::Op>> = B::interval(self.ty.include_system_sleep(), period);
        Procedure::start(backend::reset::<B>(arm), ())
    }

    /// Equivalent to [`TimerType::interval_at`], but reuses resources.
    ///
    /// Any pending wakeups are cleared.
    pub fn set_interval_at<B: DelayedStart, E>(
        &mut self,
        after: Duration,
        period: Duration,
    ) -> (progress: Progress<B::Op, (), E>)
        ensures
            progress.is_at(
                backend::reset_steps::<B>(
                    B::interval_at_steps(old(self).ty().tracks_sleep(), after@, period@),
                ),
                (),
            ),
            *final(self) == *old(self),
    {
        let arm: Vec<Step<B::Op>> = B::interval_at(self.ty.include_system_sleep(), after, period);
        Procedure::start(backend::reset::<B>(arm), ())
    }
}

/// What a poll returns if its first attempt ends as `first` says and the reactor and the further
/// attempts answer as `rounds` says, or nothing if it has not returned after the last round.
pub open spec fn poll_answer<E>(first: Attempt<E>, rounds: Seq<Round<E>>) -> Option<
    Poll<Result<(), E>>,
> {
    match Next::after_attempt(first) {
        Next::Return(answer) => Some(answer),
        _ => crate::poll::answer_of(rounds),
    }
}

/// A firing that has already happened is seen at once, whatever the reactor says.
pub proof fn law_poll_sees_an_earlier_firing<E>(rounds: Seq<Round<E>>)
    ensures
        poll_answer(Attempt::Fired, rounds) == Some(Poll::Ready(Ok::<(), E>(()))),
{
}

/// A timer is pending only if an attempt found no firing and the reactor, asked after that, will
/// wake the task.
pub proof fn law_poll_asks_for_a_wakeup_after_an_attempt<E>(first: Attempt<E>, rounds: Seq<
    Round<E>,
>)
    requires
        poll_answer(first, rounds) == Some(Poll::<Result<(), E>>::Pending),
    ensures
        first is WouldBlock,
        exists|i: int|
            0 <= i < rounds.len() && (#[trigger] rounds[i]).readiness is NotReady && forall|j: int|
                0 <= j < i ==> (#[trigger] rounds[j]).spurious(),
{
    crate::poll::law_pending_means_that_the_reactor_will_wake(rounds);
}

/// Where attempts tell the truth, a poll finds that the timer has fired only if the timer was due
/// at the first attempt or at one of those that followed.
pub proof fn law_ready_means_due<E>(
    first: Attempt<E>,
    first_due: bool,
    rounds: Seq<Round<E>>,
    due: Seq<bool>,
)
    requires
        due.len() == rounds.len(),
        first.honest(first_due),
        forall|i: int| 0 <= i < rounds.len() ==> (#[trigger] rounds[i]).honest(due[i]),
        poll_answer(first, rounds) == Some(Poll::Ready(Ok::<(), E>(()))),
    ensures
        first_due || exists|i: int| 0 <= i < due.len() && #[trigger] due[i],
{
    if first is WouldBlock {
        crate::poll::law_ready_means_due(rounds, due);
    }
}

/// A timer keeps the type that it was made for.
pub proof fn law_timers_remember_their_creation(ty: TimerType)
    ensures
        Timer::on(ty).ty() == ty,
{
}

/// A poll of a timer leaves it as it is, and makes an attempt before it asks the reactor: a firing
/// that has already happened is not waited for.
pub proof fn law_poll_begins_with_an_attempt<E>(timer: &mut Timer, first: Next<E>)
    requires
        call_ensures(Timer::poll::<E>, (timer,), first),
    ensures
        first is Attempt,
        final(timer).ty() == old(timer).ty(),
{
}

/// The clock that tracks sleep says so, and the other does not; the default does not.
pub proof fn law_type_says_whether_it_tracks_sleep(
    ty: TimerType,
    included: bool,
    default: TimerType,
)
    requires
        call_ensures(TimerType::include_system_sleep, (ty,), included),
        call_ensures(TimerType::default, (), default),
    ensures
        included <==> ty is TrackSleep,
        default is IgnoreSleep,
{
}

} // verus!
