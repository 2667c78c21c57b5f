//! What the operations of this crate make of a `timerfd`.
//!
//! Each law speaks of a call by what its contract says of its result. It holds of every state of
//! the system that the calls can lead to, and says that there is one.

use vstd::prelude::*;

use crate::backend::Backend;
use crate::countdown::Countdown;
use crate::linux;
use crate::linux::kernel;
use crate::linux::kernel::{State, TimerFd};
use crate::linux::{ClockId, Linux, Op, TimerFlags};
use crate::model;
use crate::model::System;
use crate::poll::Attempt;
use crate::procedure::{ErrorKind, Failure, OnError, Progress, Step};
use crate::schedule::{Program, Schedule};
use crate::smol::{Timer, TimerType};
use crate::time;
use crate::time::Duration;
use crate::tokio::{ClockType, Interval, Sleep};

verus! {

/// Whether the seconds of `nanos` nanoseconds fit the system's `time_t`.
pub open spec fn fits(nanos: nat) -> bool {
    nanos / 1_000_000_000 <= libc::time_t::MAX
}

/// Whether all that `program` says fits.
pub open spec fn program_fits(program: Option<Program>) -> bool {
    program matches Some(program) ==> fits(program.first) && fits(program.period)
}

impl TimerFd {
    /// Whether the clock counts the time that the system spends asleep exactly if `track` says so.
    pub open spec fn tracks(self, track: bool) -> bool {
        forall|awake: nat, asleep: nat| #[trigger]
            self.clock_id.advance(awake, asleep) == awake + if track {
                asleep
            } else {
                0
            }
    }
}

/// Whether the procedure makes a timer that is watched, never blocks and tracks sleep or not, as
/// `track` says, and that has been told `program` and nothing else.
pub open spec fn makes<T, E>(
    progress: Progress<Op, T, E>,
    track: bool,
    program: Option<Program>,
) -> bool {
    &&& progress is Perform
    &&& forall|post: State| #[trigger]
        model::reaches(None, progress->Perform_0.steps(), post) ==> {
            &&& post is Some
            &&& post->0.watched && post->0.nonblock && post->0.cloexec
            &&& post->0.tracks(track)
            &&& post->0.countdown.program == program
            &&& post->0.countdown.noticed == 0
            &&& post->0.countdown.set_at <= post->0.countdown.now
        }
    &&& program_fits(program) ==> model::possible(None::<TimerFd>, progress->Perform_0.steps())
}

/// Whether the procedure leaves any timer with what it holds, and tells it `program` in place of
/// what it was told before.
pub open spec fn resets<E>(progress: Progress<Op, (), E>, program: Option<Program>) -> bool {
    &&& progress is Perform
    &&& forall|pre: State, post: State|
        pre is Some && #[trigger] model::reaches(pre, progress->Perform_0.steps(), post) ==> {
            &&& post is Some
            &&& post->0.countdown.program == program
            &&& post->0.countdown.noticed == 0
            &&& program is Some ==> post->0.countdown.set_at == post->0.countdown.now
            &&& post == Some(TimerFd { countdown: post->0.countdown, ..pre->0 })
        }
    &&& program_fits(program) ==> forall|pre: State|
        pre is Some ==> #[trigger] model::possible(pre, progress->Perform_0.steps())
}

proof fn lemma_arming_is_possible(track: bool, schedule: Schedule, pre: State) -> (post: State)
    requires
        pre is Some,
        !(schedule is Never),
        program_fits(kernel::told(schedule)),
    ensures
        model::takes(pre, kernel::arm_steps(track, schedule)[0], post),
        post is Some,
        post->0.watched == pre->0.watched,
{
    let op = kernel::arm_steps(track, schedule)[0]->op;
    let program = kernel::told(schedule)->0;
    time::law_timespec_is_exact(program.first);
    time::law_timespec_is_exact(program.period);
    let post = Some(
        TimerFd { countdown: pre->0.countdown.set(op->expiration.program()), ..pre->0 },
    );
    assert(pre.succeeds(op, post));
    post
}

proof fn lemma_opening_is_possible(track: bool, schedule: Schedule)
    requires
        program_fits(kernel::told(schedule)),
    ensures
        model::possible(None::<TimerFd>, kernel::open_steps(track, schedule)),
{
    let steps = kernel::open_steps(track, schedule);
    let op = Linux::create_steps(track)[0]->op;
    let made: State = Some(
        TimerFd {
            clock_id: op->clock_id,
            countdown: Countdown::idle(0),
            nonblock: op->flags.nonblock,
            cloexec: op->flags.cloexec,
            watched: false,
        },
    );
    let none: State = None;
    assert(steps[0] == Linux::create_steps(track)[0]);
    assert(none.succeeds(op, made));
    let rest = steps.drop_first();
    if schedule is Never {
        assert(rest =~= Linux::register_steps());
        lemma_registering_is_possible(made, rest);
        let post = choose|post: State| model::reaches(made, rest, post);
        model::lemma_one_more_step(none, steps, made, post);
    } else {
        assert(rest =~= kernel::arm_steps(track, schedule) + Linux::register_steps());
        assert(rest[0] == kernel::arm_steps(track, schedule)[0]);
        let armed = lemma_arming_is_possible(track, schedule, made);
        assert(rest.drop_first() =~= Linux::register_steps());
        lemma_registering_is_possible(armed, rest.drop_first());
        let post = choose|post: State| model::reaches(armed, rest.drop_first(), post);
        model::lemma_one_more_step(made, rest, armed, post);
        model::lemma_one_more_step(none, steps, made, post);
    }
}

proof fn lemma_registering_is_possible(pre: State, steps: Seq<Step<Op>>)
    requires
        pre is Some,
        !pre->0.watched,
        steps == Linux::register_steps(),
    ensures
        model::possible(pre, steps),
{
    let post = Some(TimerFd { watched: true, ..pre->0 });
    assert(pre.succeeds(steps[0]->op, post));
    assert(model::reaches(post, steps.drop_first(), post));
    model::lemma_one_more_step(pre, steps, post, post);
}

proof fn lemma_clearing_is_possible(pre: State, rest: Seq<Step<Op>>) -> (cleared: State)
    requires
        pre is Some,
    ensures
        cleared is Some,
        forall|post: State| #[trigger]
            model::reaches(cleared, rest, post) ==> model::reaches(
                pre,
                Linux::clear_steps() + rest,
                post,
            ),
{
    let steps = Linux::clear_steps() + rest;
    let disarmed = Some(TimerFd { countdown: pre->0.countdown.set(None), ..pre->0 });
    assert(steps[0] == Linux::clear_steps()[0]);
    assert(pre.succeeds(steps[0]->op, disarmed));
    let others = steps.drop_first();
    assert(others[0] == Linux::clear_steps()[1]);
    assert(disarmed.fails(others[0]->op, ErrorKind::WouldBlock, disarmed));
    assert(others.drop_first() =~= rest);
    assert forall|post: State| #[trigger] model::reaches(
        disarmed,
        rest,
        post,
    ) implies model::reaches(pre, steps, post) by {
        model::lemma_one_more_step(disarmed, others, disarmed, post);
        model::lemma_one_more_step(pre, steps, disarmed, post);
    }
    disarmed
}

proof fn lemma_resetting_is_possible(track: bool, schedule: Schedule, pre: State)
    requires
        pre is Some,
        program_fits(kernel::told(schedule)),
    ensures
        model::possible(pre, kernel::reset_steps(track, schedule)),
{
    let arm = kernel::arm_steps(track, schedule);
    assert(kernel::reset_steps(track, schedule) =~= Linux::clear_steps() + arm);
    let cleared = lemma_clearing_is_possible(pre, arm);
    if schedule is Never {
        assert(model::reaches(cleared, arm, cleared));
    } else {
        let armed = lemma_arming_is_possible(track, schedule, cleared);
        assert(model::reaches(armed, arm.drop_first(), armed));
        model::lemma_one_more_step(cleared, arm, armed, armed);
    }
}

proof fn lemma_makes<T, E>(
    progress: Progress<Op, T, E>,
    value: T,
    track: bool,
    schedule: Schedule,
)
    requires
        schedule.all_spans(|span: nat| kernel::is_duration(span)),
        progress.is_at(kernel::open_steps(track, schedule), value),
    ensures
        makes(progress, track, kernel::told(schedule)),
        progress->Perform_0.value() == value,
{
    let steps = kernel::open_steps(track, schedule);
    assert(steps[0] == Linux::create_steps(track)[0]);
    assert forall|post: State| #[trigger] model::reaches(None, steps, post) implies {
        &&& post is Some
        &&& post->0.watched && post->0.nonblock && post->0.cloexec
        &&& post->0.tracks(track)
        &&& post->0.countdown.program == kernel::told(schedule)
        &&& post->0.countdown.noticed == 0
        &&& post->0.countdown.set_at <= post->0.countdown.now
    } by {
        kernel::law_new_timer_follows_its_schedule(track, schedule, post);
    }
    if program_fits(kernel::told(schedule)) {
        lemma_opening_is_possible(track, schedule);
    }
}

proof fn lemma_resets<E>(progress: Progress<Op, (), E>, track: bool, schedule: Schedule)
    requires
        schedule.all_spans(|span: nat| kernel::is_duration(span)),
        progress.is_at(kernel::reset_steps(track, schedule), ()),
    ensures
        resets(progress, kernel::told(schedule)),
{
    let steps = kernel::reset_steps(track, schedule);
    assert(steps[0] == Linux::clear_steps()[0]);
    assert forall|pre: State, post: State|
        pre is Some && #[trigger] model::reaches(pre, steps, post) implies {
        &&& post is Some
        &&& post->0.countdown.program == kernel::told(schedule)
        &&& post->0.countdown.noticed == 0
        &&& kernel::told(schedule) is Some ==> post->0.countdown.set_at == post->0.countdown.now
        &&& post == Some(TimerFd { countdown: post->0.countdown, ..pre->0 })
    } by {
        if schedule is Never {
            assert(steps =~= Linux::clear_steps() + Seq::empty());
            let cleared = kernel::lemma_clearing(pre, Seq::empty(), post);
        } else {
            kernel::law_reset_timer_follows_its_new_schedule(track, schedule, pre, post);
        }
    }
    if program_fits(kernel::told(schedule)) {
        assert forall|pre: State| pre is Some implies #[trigger] model::possible(pre, steps) by {
            lemma_resetting_is_possible(track, schedule, pre);
        }
    }
}

/// A sleep of tokio fires once, when its duration has passed, or at once if that is zero.
pub proof fn law_tokio_sleep_fires_once<E>(
    clock: ClockType,
    duration: Duration,
    progress: Progress<Op, Sleep, E>,
)
    requires
        kernel::is_duration(duration@),
        call_ensures(ClockType::sleep::<Linux, E>, (&clock, duration), progress),
    ensures
        makes(
            progress,
            clock is TrackSleep,
            Some(
                Program {
                    first: if duration@ == 0 {
                        1
                    } else {
                        duration@
                    },
                    period: 0,
                },
            ),
        ),
        progress->Perform_0.value().clock() == clock,
{
    crate::tokio::law_timers_remember_their_creation(clock, duration);
    let schedule = Schedule::OneShot(duration@);
    let value = Sleep::on(clock);
    lemma_makes(progress, value, clock is TrackSleep, schedule);
}

/// An interval of tokio fires each time its period has passed.
pub proof fn law_tokio_interval_fires_each_period<E>(
    clock: ClockType,
    duration: Duration,
    progress: Progress<Op, Interval, E>,
)
    requires
        kernel::is_duration(duration@),
        call_ensures(ClockType::interval::<Linux, E>, (&clock, duration), progress),
    ensures
        makes(
            progress,
            clock is TrackSleep,
            Some(
                Program {
                    first: if duration@ == 0 {
                        1
                    } else {
                        duration@
                    },
                    period: if duration@ == 0 {
                        1
                    } else {
                        duration@
                    },
                },
            ),
        ),
        progress->Perform_0.value().clock() == clock,
        progress->Perform_0.value().period() == duration@,
{
    crate::tokio::law_timers_remember_their_creation(clock, duration);
    let schedule = Schedule::Interval(duration@);
    let value = Interval::on(clock, duration);
    lemma_makes(progress, value, clock is TrackSleep, schedule);
}

/// An interval of tokio with a delayed start fires when the delay has passed, and then each time
/// its period has passed.
pub proof fn law_tokio_delayed_interval_fires_each_period<E>(
    clock: ClockType,
    delay: Duration,
    duration: Duration,
    progress: Progress<Op, Interval, E>,
)
    requires
        kernel::is_duration(delay@),
        kernel::is_duration(duration@),
        call_ensures(ClockType::interval_at::<Linux, E>, (&clock, delay, duration), progress),
    ensures
        makes(
            progress,
            clock is TrackSleep,
            Some(
                Program {
                    first: if delay@ == 0 {
                        1
                    } else {
                        delay@
                    },
                    period: if duration@ == 0 {
                        1
                    } else {
                        duration@
                    },
                },
            ),
        ),
        progress->Perform_0.value().clock() == clock,
        progress->Perform_0.value().period() == duration@,
{
    crate::tokio::law_timers_remember_their_creation(clock, duration);
    let schedule = Schedule::IntervalAt(delay@, duration@);
    let value = Interval::on(clock, duration);
    lemma_makes(progress, value, clock is TrackSleep, schedule);
}

/// A timer of smol that is to fire once does, when its duration has passed.
pub proof fn law_smol_timer_fires_once<E>(
    ty: TimerType,
    duration: Duration,
    progress: Progress<Op, Timer, E>,
)
    requires
        kernel::is_duration(duration@),
        call_ensures(TimerType::after::<Linux, E>, (&ty, duration), progress),
    ensures
        makes(
            progress,
            ty is TrackSleep,
            Some(
                Program {
                    first: if duration@ == 0 {
                        1
                    } else {
                        duration@
                    },
                    period: 0,
                },
            ),
        ),
        progress->Perform_0.value().ty() == ty,
{
    crate::smol::law_timers_remember_their_creation(ty);
    let schedule = Schedule::OneShot(duration@);
    let value = Timer::on(ty);
    lemma_makes(progress, value, ty is TrackSleep, schedule);
}

/// An interval of smol fires each time its period has passed.
pub proof fn law_smol_interval_fires_each_period<E>(
    ty: TimerType,
    duration: Duration,
    progress: Progress<Op, Timer, E>,
)
    requires
        kernel::is_duration(duration@),
        call_ensures(TimerType::interval::<Linux, E>, (&ty, duration), progress),
    ensures
        makes(
            progress,
            ty is TrackSleep,
            Some(
                Program {
                    first: if duration@ == 0 {
                        1
                    } else {
                        duration@
                    },
                    period: if duration@ == 0 {
                        1
                    } else {
                        duration@
                    },
                },
            ),
        ),
        progress->Perform_0.value().ty() == ty,
{
    crate::smol::law_timers_remember_their_creation(ty);
    let schedule = Schedule::Interval(duration@);
    let value = Timer::on(ty);
    lemma_makes(progress, value, ty is TrackSleep, schedule);
}

/// An interval of smol with a delayed start fires when the delay has passed, and then each time its
/// period has passed.
pub proof fn law_smol_delayed_interval_fires_each_period<E>(
    ty: TimerType,
    delay: Duration,
    duration: Duration,
    progress: Progress<Op, Timer, E>,
)
    requires
        kernel::is_duration(delay@),
        kernel::is_duration(duration@),
        call_ensures(TimerType::interval_at::<Linux, E>, (&ty, delay, duration), progress),
    ensures
        makes(
            progress,
            ty is TrackSleep,
            Some(
                Program {
                    first: if delay@ == 0 {
                        1
                    } else {
                        delay@
                    },
                    period: if duration@ == 0 {
                        1
                    } else {
                        duration@
                    },
                },
            ),
        ),
        progress->Perform_0.value().ty() == ty,
{
    crate::smol::law_timers_remember_their_creation(ty);
    let schedule = Schedule::IntervalAt(delay@, duration@);
    let value = Timer::on(ty);
    lemma_makes(progress, value, ty is TrackSleep, schedule);
}

/// A timer of smol that is never to fire is not told anything.
pub proof fn law_smol_never_is_told_nothing<E>(
    ty: TimerType,
    progress: Progress<Op, Timer, E>,
)
    requires
        call_ensures(TimerType::never::<Linux, E>, (&ty,), progress),
    ensures
        makes(
            progress,
            ty is TrackSleep,
            None,
        ),
        progress->Perform_0.value().ty() == ty,
{
    crate::smol::law_timers_remember_their_creation(ty);
    let schedule = Schedule::Never;
    let value = Timer::on(ty);
    lemma_makes(progress, value, ty is TrackSleep, schedule);
}

/// A sleep of tokio that is reset fires once, when the new duration has passed since then.
pub proof fn law_tokio_sleep_can_be_reset<E>(
    timer: &mut Sleep,
    duration: Duration,
    progress: Progress<Op, (), E>,
)
    requires
        kernel::is_duration(duration@),
        call_ensures(Sleep::reset::<Linux, E>, (timer, duration), progress),
    ensures
        resets(
            progress,
            Some(
                Program {
                    first: if duration@ == 0 {
                        1
                    } else {
                        duration@
                    },
                    period: 0,
                },
            ),
        ),
        *final(timer) == *old(timer),
{
    let schedule = Schedule::OneShot(duration@);
    lemma_resets(progress, old(timer).clock().tracks_sleep(), schedule);
}

/// An interval of tokio that is reset fires each time the period that it was made with has passed.
pub proof fn law_tokio_interval_can_be_reset<E>(
    timer: &mut Interval,
    progress: Progress<Op, (), E>,
)
    requires
        kernel::is_duration(old(timer).period()),
        call_ensures(Interval::reset::<Linux, E>, (timer,), progress),
    ensures
        resets(
            progress,
            Some(
                Program {
                    first: if old(timer).period() == 0 {
                        1
                    } else {
                        old(timer).period()
                    },
                    period: if old(timer).period() == 0 {
                        1
                    } else {
                        old(timer).period()
                    },
                },
            ),
        ),
        *final(timer) == *old(timer),
{
    let schedule = Schedule::Interval(old(timer).period());
    lemma_resets(progress, old(timer).clock().tracks_sleep(), schedule);
}

/// An interval of tokio that is reset with a delay fires when that has passed, and then each time
/// the period that it was made with has passed.
pub proof fn law_tokio_interval_can_be_delayed<E>(
    timer: &mut Interval,
    after: Duration,
    progress: Progress<Op, (), E>,
)
    requires
        kernel::is_duration(after@),
        kernel::is_duration(old(timer).period()),
        call_ensures(Interval::reset_after::<Linux, E>, (timer, after), progress),
    ensures
        resets(
            progress,
            Some(
                Program {
                    first: if after@ == 0 {
                        1
                    } else {
                        after@
                    },
                    period: if old(timer).period() == 0 {
                        1
                    } else {
                        old(timer).period()
                    },
                },
            ),
        ),
        *final(timer) == *old(timer),
{
    let schedule = Schedule::IntervalAt(after@, old(timer).period());
    lemma_resets(progress, old(timer).clock().tracks_sleep(), schedule);
}

/// A timer of smol that is cleared is disarmed.
pub proof fn law_smol_timer_can_be_cleared<E>(
    timer: &mut Timer,
    progress: Progress<Op, (), E>,
)
    requires
        call_ensures(Timer::clear::<Linux, E>, (timer,), progress),
    ensures
        resets(
            progress,
            None,
        ),
        *final(timer) == *old(timer),
{
    let schedule = Schedule::Never;
    assert(Linux::clear_steps() =~= kernel::reset_steps(
        old(timer).ty().tracks_sleep(),
        schedule,
    ));
    lemma_resets(progress, old(timer).ty().tracks_sleep(), schedule);
}

/// A timer of smol that is set fires once, when the new duration has passed since then.
pub proof fn law_smol_timer_can_be_set<E>(
    timer: &mut Timer,
    duration: Duration,
    progress: Progress<Op, (), E>,
)
    requires
        kernel::is_duration(duration@),
        call_ensures(Timer::set_after::<Linux, E>, (timer, duration), progress),
    ensures
        resets(
            progress,
            Some(
                Program {
                    first: if duration@ == 0 {
                        1
                    } else {
                        duration@
                    },
                    period: 0,
                },
            ),
        ),
        *final(timer) == *old(timer),
{
    let schedule = Schedule::OneShot(duration@);
    lemma_resets(progress, old(timer).ty().tracks_sleep(), schedule);
}

/// A timer of smol that is set to an interval fires each time its period has passed.
pub proof fn law_smol_interval_can_be_set<E>(
    timer: &mut Timer,
    period: Duration,
    progress: Progress<Op, (), E>,
)
    requires
        kernel::is_duration(period@),
        call_ensures(Timer::set_interval::<Linux, E>, (timer, period), progress),
    ensures
        resets(
            progress,
            Some(
                Program {
                    first: if period@ == 0 {
                        1
                    } else {
                        period@
                    },
                    period: if period@ == 0 {
                        1
                    } else {
                        period@
                    },
                },
            ),
        ),
        *final(timer) == *old(timer),
{
    let schedule = Schedule::Interval(period@);
    lemma_resets(progress, old(timer).ty().tracks_sleep(), schedule);
}

/// A timer of smol that is set to an interval with a delayed start fires when the delay has passed,
/// and then each time its period has passed.
pub proof fn law_smol_delayed_interval_can_be_set<E>(
    timer: &mut Timer,
    after: Duration,
    period: Duration,
    progress: Progress<Op, (), E>,
)
    requires
        kernel::is_duration(after@),
        kernel::is_duration(period@),
        call_ensures(Timer::set_interval_at::<Linux, E>, (timer, after, period), progress),
    ensures
        resets(
            progress,
            Some(
                Program {
                    first: if after@ == 0 {
                        1
                    } else {
                        after@
                    },
                    period: if period@ == 0 {
                        1
                    } else {
                        period@
                    },
                },
            ),
        ),
        *final(timer) == *old(timer),
{
    let schedule = Schedule::IntervalAt(after@, period@);
    lemma_resets(progress, old(timer).ty().tracks_sleep(), schedule);
}

/// The calls by which a timer is set hand the system the spans that they are given, each as a
/// `timespec` that the system accepts, and report a failure.
pub proof fn law_calls_hand_over_the_spans(
    delay: Duration,
    duration: Duration,
    once: Step<Op>,
    again: Step<Op>,
    delayed: Step<Op>,
)
    requires
        fits(delay@),
        fits(duration@),
        call_ensures(linux::sleep, (duration,), once),
        call_ensures(linux::interval, (duration,), again),
        call_ensures(linux::interval_at, (delay, duration), delayed),
    ensures
        sets(once, duration@, 0),
        sets(again, duration@, duration@),
        sets(delayed, delay@, duration@),
{
    time::law_timespec_is_exact(delay@);
    time::law_timespec_is_exact(duration@);
}

/// Whether the step sets a timer to expire first after `value` and then after each `interval`, both
/// in nanoseconds, and fails if that fails.
pub open spec fn sets(step: Step<Op>, value: nat, interval: nat) -> bool {
    &&& step matches Step::Call { op: Op::SetTime { expiration }, on_error: OnError::Fail }
    &&& expiration.value().valid() && expiration.value().nanos() == value
    &&& expiration.interval().valid() && expiration.interval().nanos() == interval
}

/// A new timer follows the clock that was asked for, never blocks, and is closed when another
/// program is executed; that it cannot be made is a failure.
pub proof fn law_new_timer_is_as_asked_for(
    track: bool,
    clock_id: ClockId,
    step: Step<Op>,
    awake: nat,
    asleep: nat,
)
    requires
        call_ensures(linux::clock_id, (track,), clock_id),
        call_ensures(linux::new_timer, (clock_id,), step),
    ensures
        clock_id.advance(awake, asleep) == awake + if track {
            asleep
        } else {
            0
        },
        step == (Step::Call {
            op: Op::NewTimer { clock_id, flags: TimerFlags { nonblock: true, cloexec: true } },
            on_error: OnError::Fail,
        }),
{
}

/// An attempt finds a firing exactly if expirations could be read, and none exactly if the read
/// would have had to wait; any other error is handed on.
pub proof fn law_attempt_goes_by_the_read<E>(
    reply: Result<(), Failure<E>>,
    attempt: Attempt<E>,
)
    requires
        call_ensures(linux::attempt::<E>, (reply,), attempt),
    ensures
        attempt is Fired <==> reply is Ok,
        attempt is WouldBlock <==> reply is Err && reply->Err_0.kind is WouldBlock,
        reply is Err && !(reply->Err_0.kind is WouldBlock) ==> attempt == Attempt::Failed(
            reply->Err_0.error,
        ),
{
}

/// To clear a timer disarms any timer, whether or not it is due, and takes note of nothing after
/// that; that there was nothing to take note of is no failure.
pub proof fn law_clear_disarms(steps: Vec<Step<Op>>, pre: State, post: State)
    requires
        call_ensures(linux::clear, (), steps),
        pre is Some,
    ensures
        model::possible(pre, steps@),
        model::reaches(pre, steps@, post) ==> post is Some && post->0.countdown.program is None
            && !post->0.countdown.due(),
{
    assert(steps@ =~= Linux::clear_steps() + Seq::empty());
    let cleared = lemma_clearing_is_possible(pre, Seq::empty());
    assert(model::reaches(cleared, Seq::<Step<Op>>::empty(), cleared));
    if model::reaches(pre, steps@, post) {
        let cleared = kernel::lemma_clearing(pre, Seq::empty(), post);
    }
}

} // verus!
