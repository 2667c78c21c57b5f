//! What the operations of this crate make of a waitable timer and of the state that is shared with
//! the background thread.
//!
//! Each law speaks of a call by what its contract says of its result. Where it speaks of the
//! system, it holds of every state that the calls can lead to, and says that there is one.

use vstd::prelude::*;

use crate::backend::Backend;
use crate::countdown::Countdown;
use crate::model;
use crate::model::System;
use crate::poll::Poll;
use crate::procedure;
use crate::procedure::{Failure, Outcome, Progress, Step};
use crate::schedule::{Program, Schedule};
use crate::smol::{Timer as SmolTimer, TimerType};
use crate::time::Duration;
use crate::tokio::{ClockType, Interval, Sleep};
use crate::windows;
use crate::windows::background::{BackgroundTimerThread, Delivery};
use crate::windows::kernel;
use crate::windows::kernel::{State, WaitableTimer};
use crate::windows::{Association, Enqueued, Op, Release, SharedTimerState, Timer, Windows};

verus! {

/// Whether all that `program` says can be represented.
pub open spec fn program_fits(program: Option<Program>) -> bool {
    program matches Some(program) ==> program.first / 100 <= i64::MAX && program.period / 1_000_000
        <= i32::MAX
}

/// Whether the procedure makes a timer of high resolution that is watched and usable, tracks sleep,
/// and has been told `program` and nothing else.
pub open spec fn makes<T, E>(progress: Progress<Op, T, E>, program: Option<Program>) -> bool {
    &&& progress is Perform
    &&& forall|post: State| #[trigger]
        model::reaches(None, progress->Perform_0.steps(), post) ==> {
            &&& post is Some
            &&& post->0.watched() && post->0.usable() && post->0.high_resolution
            &&& forall|awake: nat, asleep: nat| #[trigger]
                post->0.advance(awake, asleep) == awake + asleep
            &&& post->0.countdown.program == program
            &&& post->0.countdown.noticed == 0
            &&& post->0.countdown.set_at <= post->0.countdown.now
        }
    &&& program_fits(program) ==> model::possible(
        None::<WaitableTimer>,
        progress->Perform_0.steps(),
    )
}

/// Whether the procedure leaves any timer with what it holds, begins a new generation in which it
/// is watched, and tells it `program` in place of what it was told before.
pub open spec fn resets<E>(progress: Progress<Op, (), E>, program: Option<Program>) -> bool {
    &&& progress is Perform
    &&& forall|pre: State, post: State|
        pre is Some && #[trigger] model::reaches(pre, progress->Perform_0.steps(), post) ==> {
            &&& post is Some
            &&& post->0.watched() && post->0.generation > pre->0.generation
            &&& post->0.packet == pre->0.packet && post->0.access == pre->0.access
            &&& post->0.countdown.program == program
            &&& pre->0.countdown.now <= post->0.countdown.set_at <= post->0.countdown.now
            &&& post->0.countdown.wf()
        }
    &&& program_fits(program) ==> forall|pre: State|
        pre is Some && pre->0.usable() ==> #[trigger] model::possible(
            pre,
            progress->Perform_0.steps(),
        )
}

proof fn lemma_arming_is_possible(track: bool, schedule: Schedule, pre: State) -> (post: State)
    requires
        pre is Some,
        pre->0.usable(),
        !(schedule is Never),
        program_fits(kernel::told(schedule)),
    ensures
        model::takes(pre, kernel::arm_steps(track, schedule)[0], post),
        post is Some,
        post == Some(WaitableTimer { countdown: post->0.countdown, ..pre->0 }),
{
    let program = kernel::told(schedule);
    let post = Some(WaitableTimer { countdown: pre->0.countdown.set(program), ..pre->0 });
    let op = kernel::arm_steps(track, schedule)[0]->op;
    assert(pre.succeeds(op, post));
    post
}

proof fn lemma_opening_is_possible(track: bool, schedule: Schedule)
    requires
        program_fits(kernel::told(schedule)),
    ensures
        model::possible(None::<WaitableTimer>, kernel::open_steps(track, schedule)),
{
    let steps = kernel::open_steps(track, schedule);
    let op = Windows::create_steps(track)[0]->op;
    let none: State = None;
    let made: State = Some(
        WaitableTimer {
            countdown: Countdown::idle(0),
            high_resolution: op->high_resolution,
            access: op->access,
            packet: false,
            generation: 0,
            association: None,
        },
    );
    let packed: State = Some(WaitableTimer { packet: true, ..made->0 });
    let watched: State = Some(WaitableTimer { association: Some(0), ..packed->0 });
    assert(steps[0] == Windows::create_steps(track)[0]);
    assert(none.succeeds(op, made));
    let second = steps.drop_first();
    assert(second[0] == Windows::create_steps(track)[1]);
    assert(made.succeeds(second[0]->op, packed));
    let third = second.drop_first();
    assert(third[0] == Windows::create_steps(track)[2]);
    assert(packed->0.associates(false, watched->0));
    assert(packed.succeeds(third[0]->op, watched));
    let rest = third.drop_first();
    assert(rest =~= kernel::arm_steps(track, schedule));
    if schedule is Never {
        assert(model::reaches(watched, rest, watched));
    } else {
        let armed = lemma_arming_is_possible(track, schedule, watched);
        assert(model::reaches(armed, rest.drop_first(), armed));
        model::lemma_one_more_step(watched, rest, armed, armed);
    }
    let post = choose|post: State| model::reaches(watched, rest, post);
    model::lemma_one_more_step(packed, third, watched, post);
    model::lemma_one_more_step(made, second, packed, post);
    model::lemma_one_more_step(none, steps, made, post);
}

proof fn lemma_clearing_is_possible(pre: State, rest: Seq<Step<Op>>) -> (cleared: State)
    requires
        pre is Some,
    ensures
        cleared is Some,
        cleared == Some(
            WaitableTimer {
                association: None,
                generation: pre->0.generation + 1,
                ..pre->0
            },
        ),
        forall|post: State| #[trigger]
            model::reaches(cleared, rest, post) ==> model::reaches(
                pre,
                Windows::clear_steps() + rest,
                post,
            ),
{
    let steps = Windows::clear_steps() + rest;
    let cleared = Some(WaitableTimer { generation: pre->0.generation + 1, ..pre->0 });
    let unwatched = Some(WaitableTimer { association: None, ..cleared->0 });
    assert(steps[0] == Windows::clear_steps()[0]);
    assert(pre.fails(steps[0]->op, procedure::ErrorKind::Other, pre));
    let second = steps.drop_first();
    assert(second[0] == Windows::clear_steps()[1]);
    assert(pre.succeeds(second[0]->op, cleared));
    let third = second.drop_first();
    assert(third[0] == Windows::clear_steps()[2]);
    assert(cleared.succeeds(third[0]->op, unwatched));
    assert(third.drop_first() =~= rest);
    assert forall|post: State| #[trigger] model::reaches(
        unwatched,
        rest,
        post,
    ) implies model::reaches(pre, steps, post) by {
        model::lemma_one_more_step(cleared, third, unwatched, post);
        model::lemma_one_more_step(pre, second, cleared, post);
        model::lemma_one_more_step(pre, steps, pre, post);
    }
    unwatched
}

proof fn lemma_resetting_is_possible(track: bool, schedule: Schedule, pre: State)
    requires
        pre is Some,
        pre->0.usable(),
        !(schedule is Never),
        program_fits(kernel::told(schedule)),
    ensures
        model::possible(pre, kernel::reset_steps(track, schedule)),
{
    let arm = kernel::arm_steps(track, schedule);
    let rest = arm + Windows::watch_again_steps();
    assert(kernel::reset_steps(track, schedule) =~= Windows::clear_steps() + rest);
    let cleared = lemma_clearing_is_possible(pre, rest);
    assert(rest[0] == arm[0]);
    let armed = lemma_arming_is_possible(track, schedule, cleared);
    let signaled = armed->0.countdown.due();
    let watched = Some(
        WaitableTimer {
            countdown: if signaled {
                armed->0.countdown.notice()
            } else {
                armed->0.countdown
            },
            association: Some(armed->0.generation),
            ..armed->0
        },
    );
    assert(armed->0.associates(signaled, watched->0));
    let last = rest.drop_first();
    assert(last =~= Windows::watch_again_steps());
    assert(armed.succeeds(last[0]->op, watched));
    assert(model::reaches(watched, last.drop_first(), watched));
    model::lemma_one_more_step(armed, last, watched, watched);
    model::lemma_one_more_step(cleared, rest, armed, watched);
}

proof fn lemma_makes<T, E>(
    progress: Progress<Op, T, E>,
    value: T,
    track: bool,
    schedule: Schedule,
)
    requires
        progress.is_at(kernel::open_steps(track, schedule), value),
    ensures
        makes(progress, kernel::told(schedule)),
        progress->Perform_0.value() == value,
{
    let steps = kernel::open_steps(track, schedule);
    assert(steps[0] == Windows::create_steps(track)[0]);
    assert forall|post: State| #[trigger] model::reaches(None, steps, post) implies {
        &&& post is Some
        &&& post->0.watched() && post->0.usable() && post->0.high_resolution
        &&& forall|awake: nat, asleep: nat| #[trigger]
            post->0.advance(awake, asleep) == awake + asleep
        &&& post->0.countdown.program == kernel::told(schedule)
        &&& post->0.countdown.noticed == 0
        &&& post->0.countdown.set_at <= post->0.countdown.now
    } by {
        kernel::law_new_timer_follows_its_schedule(track, schedule, post);
    }
    if program_fits(kernel::told(schedule)) {
        lemma_opening_is_possible(track, schedule);
    }
}

proof fn lemma_resets<E>(progress: Progress<Op, (), E>, track: bool, schedule: Schedule)
    requires
        !(schedule is Never),
        progress.is_at(kernel::reset_steps(track, schedule), ()),
    ensures
        resets(progress, kernel::told(schedule)),
{
    let steps = kernel::reset_steps(track, schedule);
    assert(steps[0] == Windows::clear_steps()[0]);
    assert forall|pre: State, post: State|
        pre is Some && #[trigger] model::reaches(pre, steps, post) implies {
        &&& post is Some
        &&& post->0.watched() && post->0.generation > pre->0.generation
        &&& post->0.packet == pre->0.packet && post->0.access == pre->0.access
        &&& post->0.countdown.program == kernel::told(schedule)
        &&& pre->0.countdown.now <= post->0.countdown.set_at <= post->0.countdown.now
        &&& post->0.countdown.wf()
    } by {
        kernel::law_reset_timer_follows_its_new_schedule(track, schedule, pre, post);
    }
    if program_fits(kernel::told(schedule)) {
        assert forall|pre: State|
            pre is Some && pre->0.usable() implies #[trigger] model::possible(pre, steps) by {
            lemma_resetting_is_possible(track, schedule, pre);
        }
    }
}

/// A sleep of tokio fires once, when its duration has passed, or at once if that is zero.
pub proof fn law_tokio_sleep_fires_once<E>(
    clock: ClockType,
    duration: Duration,
    progress: Progress<Op, Sleep, E>,
)
    requires
        call_ensures(ClockType::sleep::<Windows, E>, (&clock, duration), progress),
    ensures
        makes(
            progress,
            Some(
                Program {
                    first: (duration@ - duration@ % 100) as nat,
                    period: 0,
                },
            ),
        ),
        progress->Perform_0.value().clock() == clock,
{
    crate::tokio::law_timers_remember_their_creation(clock, duration);
    let schedule = Schedule::OneShot(duration@);
    let value = Sleep::on(clock);
    lemma_makes(progress, value, clock is TrackSleep, schedule);
}

/// An interval of tokio fires each time its period has passed.
pub proof fn law_tokio_interval_fires_each_period<E>(
    clock: ClockType,
    duration: Duration,
    progress: Progress<Op, Interval, E>,
)
    requires
        call_ensures(ClockType::interval::<Windows, E>, (&clock, duration), progress),
    ensures
        makes(
            progress,
            Some(
                Program {
                    first: (duration@ - duration@ % 100) as nat,
                    period: if duration@ < 1_000_000 {
                        1_000_000
                    } else {
                        (duration@ - duration@ % 1_000_000) as nat
                    },
                },
            ),
        ),
        progress->Perform_0.value().clock() == clock,
        progress->Perform_0.value().period() == duration@,
{
    crate::tokio::law_timers_remember_their_creation(clock, duration);
    let schedule = Schedule::Interval(duration@);
    let value = Interval::on(clock, duration);
    lemma_makes(progress, value, clock is TrackSleep, schedule);
}

/// An interval of tokio with a delayed start fires when the delay has passed, and then each time
/// its period has passed.
pub proof fn law_tokio_delayed_interval_fires_each_period<E>(
    clock: ClockType,
    delay: Duration,
    duration: Duration,
    progress: Progress<Op, Interval, E>,
)
    requires
        call_ensures(ClockType::interval_at::<Windows, E>, (&clock, delay, duration), progress),
    ensures
        makes(
            progress,
            Some(
                Program {
                    first: (delay@ - delay@ % 100) as nat,
                    period: if duration@ < 1_000_000 {
                        1_000_000
                    } else {
                        (duration@ - duration@ % 1_000_000) as nat
                    },
                },
            ),
        ),
        progress->Perform_0.value().clock() == clock,
        progress->Perform_0.value().period() == duration@,
{
    crate::tokio::law_timers_remember_their_creation(clock, duration);
    let schedule = Schedule::IntervalAt(delay@, duration@);
    let value = Interval::on(clock, duration);
    lemma_makes(progress, value, clock is TrackSleep, schedule);
}

/// A timer of smol that is to fire once does, when its duration has passed.
pub proof fn law_smol_timer_fires_once<E>(
    ty: TimerType,
    duration: Duration,
    progress: Progress<Op, SmolTimer, E>,
)
    requires
        call_ensures(TimerType::after::<Windows, E>, (&ty, duration), progress),
    ensures
        makes(
            progress,
            Some(
                Program {
                    first: (duration@ - duration@ % 100) as nat,
                    period: 0,
                },
            ),
        ),
        progress->Perform_0.value().ty() == ty,
{
    crate::smol::law_timers_remember_their_creation(ty);
    let schedule = Schedule::OneShot(duration@);
    let value = SmolTimer::on(ty);
    lemma_makes(progress, value, ty is TrackSleep, schedule);
}

/// An interval of smol fires each time its period has passed.
pub proof fn law_smol_interval_fires_each_period<E>(
    ty: TimerType,
    duration: Duration,
    progress: Progress<Op, SmolTimer, E>,
)
    requires
        call_ensures(TimerType::interval::<Windows, E>, (&ty, duration), progress),
    ensures
        makes(
            progress,
            Some(
                Program {
                    first: (duration@ - duration@ % 100) as nat,
                    period: if duration@ < 1_000_000 {
                        1_000_000
                    } else {
                        (duration@ - duration@ % 1_000_000) as nat
                    },
                },
            ),
        ),
        progress->Perform_0.value().ty() == ty,
{
    crate::smol::law_timers_remember_their_creation(ty);
    let schedule = Schedule::Interval(duration@);
    let value = SmolTimer::on(ty);
    lemma_makes(progress, value, ty is TrackSleep, schedule);
}

/// An interval of smol with a delayed start fires when the delay has passed, and then each time its
/// period has passed.
pub proof fn law_smol_delayed_interval_fires_each_period<E>(
    ty: TimerType,
    delay: Duration,
    duration: Duration,
    progress: Progress<Op, SmolTimer, E>,
)
    requires
        call_ensures(TimerType::interval_at::<Windows, E>, (&ty, delay, duration), progress),
    ensures
        makes(
            progress,
            Some(
                Program {
                    first: (delay@ - delay@ % 100) as nat,
                    period: if duration@ < 1_000_000 {
                        1_000_000
                    } else {
                        (duration@ - duration@ % 1_000_000) as nat
                    },
                },
            ),
        ),
        progress->Perform_0.value().ty() == ty,
{
    crate::smol::law_timers_remember_their_creation(ty);
    let schedule = Schedule::IntervalAt(delay@, duration@);
    let value = SmolTimer::on(ty);
    lemma_makes(progress, value, ty is TrackSleep, schedule);
}

/// A timer of smol that is never to fire is not told anything.
pub proof fn law_smol_never_is_told_nothing<E>(
    ty: TimerType,
    progress: Progress<Op, SmolTimer, E>,
)
    requires
        call_ensures(TimerType::never::<Windows, E>, (&ty,), progress),
    ensures
        makes(
            progress,
            None,
        ),
        progress->Perform_0.value().ty() == ty,
{
    crate::smol::law_timers_remember_their_creation(ty);
    let schedule = Schedule::Never;
    let value = SmolTimer::on(ty);
    lemma_makes(progress, value, ty is TrackSleep, schedule);
}

/// A sleep of tokio that is reset fires once, when the new duration has passed since then.
pub proof fn law_tokio_sleep_can_be_reset<E>(
    timer: &mut Sleep,
    duration: Duration,
    progress: Progress<Op, (), E>,
)
    requires
        call_ensures(Sleep::reset::<Windows, E>, (timer, duration), progress),
    ensures
        resets(
            progress,
            Some(
                Program {
                    first: (duration@ - duration@ % 100) as nat,
                    period: 0,
                },
            ),
        ),
        *final(timer) == *old(timer),
{
    let schedule = Schedule::OneShot(duration@);
    lemma_resets(progress, old(timer).clock().tracks_sleep(), schedule);
}

/// An interval of tokio that is reset fires each time the period that it was made with has passed.
pub proof fn law_tokio_interval_can_be_reset<E>(
    timer: &mut Interval,
    progress: Progress<Op, (), E>,
)
    requires
        call_ensures(Interval::reset::<Windows, E>, (timer,), progress),
    ensures
        resets(
            progress,
            Some(
                Program {
                    first: (old(timer).period() - old(timer).period() % 100) as nat,
                    period: if old(timer).period() < 1_000_000 {
                        1_000_000
                    } else {
                        (old(timer).period() - old(timer).period() % 1_000_000) as nat
                    },
                },
            ),
        ),
        *final(timer) == *old(timer),
{
    let schedule = Schedule::Interval(old(timer).period());
    lemma_resets(progress, old(timer).clock().tracks_sleep(), schedule);
}

/// An interval of tokio that is reset with a delay fires when that has passed, and then each time
/// the period that it was made with has passed.
pub proof fn law_tokio_interval_can_be_delayed<E>(
    timer: &mut Interval,
    after: Duration,
    progress: Progress<Op, (), E>,
)
    requires
        call_ensures(Interval::reset_after::<Windows, E>, (timer, after), progress),
    ensures
        resets(
            progress,
            Some(
                Program {
                    first: (after@ - after@ % 100) as nat,
                    period: if old(timer).period() < 1_000_000 {
                        1_000_000
                    } else {
                        (old(timer).period() - old(timer).period() % 1_000_000) as nat
                    },
                },
            ),
        ),
        *final(timer) == *old(timer),
{
    let schedule = Schedule::IntervalAt(after@, old(timer).period());
    lemma_resets(progress, old(timer).clock().tracks_sleep(), schedule);
}

/// A timer of smol that is set fires once, when the new duration has passed since then.
pub proof fn law_smol_timer_can_be_set<E>(
    timer: &mut SmolTimer,
    duration: Duration,
    progress: Progress<Op, (), E>,
)
    requires
        call_ensures(SmolTimer::set_after::<Windows, E>, (timer, duration), progress),
    ensures
        resets(
            progress,
            Some(
                Program {
                    first: (duration@ - duration@ % 100) as nat,
                    period: 0,
                },
            ),
        ),
        *final(timer) == *old(timer),
{
    let schedule = Schedule::OneShot(duration@);
    lemma_resets(progress, old(timer).ty().tracks_sleep(), schedule);
}

/// A timer of smol that is set to an interval fires each time its period has passed.
pub proof fn law_smol_interval_can_be_set<E>(
    timer: &mut SmolTimer,
    period: Duration,
    progress: Progress<Op, (), E>,
)
    requires
        call_ensures(SmolTimer::set_interval::<Windows, E>, (timer, period), progress),
    ensures
        resets(
            progress,
            Some(
                Program {
                    first: (period@ - period@ % 100) as nat,
                    period: if period@ < 1_000_000 {
                        1_000_000
                    } else {
                        (period@ - period@ % 1_000_000) as nat
                    },
                },
            ),
        ),
        *final(timer) == *old(timer),
{
    let schedule = Schedule::Interval(period@);
    lemma_resets(progress, old(timer).ty().tracks_sleep(), schedule);
}

/// A timer of smol that is set to an interval with a delayed start fires when the delay has passed,
/// and then each time its period has passed.
pub proof fn law_smol_delayed_interval_can_be_set<E>(
    timer: &mut SmolTimer,
    after: Duration,
    period: Duration,
    progress: Progress<Op, (), E>,
)
    requires
        call_ensures(SmolTimer::set_interval_at::<Windows, E>, (timer, after, period), progress),
    ensures
        resets(
            progress,
            Some(
                Program {
                    first: (after@ - after@ % 100) as nat,
                    period: if period@ < 1_000_000 {
                        1_000_000
                    } else {
                        (period@ - period@ % 1_000_000) as nat
                    },
                },
            ),
        ),
        *final(timer) == *old(timer),
{
    let schedule = Schedule::IntervalAt(after@, period@);
    lemma_resets(progress, old(timer).ty().tracks_sleep(), schedule);
}

/// A timer of smol that is cleared is not heard of any more, whether or not it and its packet could
/// be canceled; and that they could not is no failure.
pub proof fn law_smol_timer_can_be_cleared<E>(
    timer: &mut SmolTimer,
    progress: Progress<Op, (), E>,
    pre: State,
    post: State,
    replies: Seq<Result<(), Failure<E>>>,
)
    requires
        call_ensures(SmolTimer::clear::<Windows, E>, (timer,), progress),
        pre is Some,
        pre->0.association is Some ==> pre->0.association->0 <= pre->0.generation,
        replies.len() >= 3,
        replies[1] is Ok,
    ensures
        *final(timer) == *old(timer),
        progress is Perform,
        model::reaches(pre, progress->Perform_0.steps(), post) ==> post is Some
            && !post->0.watched() && post->0.packet == pre->0.packet && post->0.generation
            == pre->0.generation + 1,
        model::possible(pre, progress->Perform_0.steps()),
        procedure::outcome(progress->Perform_0.steps(), (), replies) == Outcome::<(), E>::Done(()),
{
    let steps = Windows::clear_steps();
    assert(progress->Perform_0.steps() == steps);
    if model::reaches(pre, steps, post) {
        kernel::law_cleared_timer_is_not_heard_of(pre, post);
        let (_, canceled) = model::lemma_first_step(pre, steps, post);
        let (_, cleared) = model::lemma_first_step(canceled, steps.drop_first(), post);
        let (_, unwatched) = model::lemma_first_step(
            cleared,
            steps.drop_first().drop_first(),
            post,
        );
        assert(steps.drop_first().drop_first().drop_first().len() == 0);
    }
    let cleared = lemma_clearing_is_possible(pre, Seq::empty());
    assert(model::reaches(cleared, Seq::<Step<Op>>::empty(), cleared));
    assert(steps =~= steps + Seq::empty());
    assert(procedure::accepted(steps, replies, 3));
    procedure::law_done_if_every_call_is_accepted(steps, (), replies);
}

/// A timer is set exactly if the system can represent its deadline and its period. It is then set
/// to a relative time, which is the deadline cut to a unit, and to the period cut to a millisecond,
/// but not to nothing; a timer without a period does not repeat. That it cannot be set is a
/// failure.
pub proof fn law_timer_is_set_or_refused(
    deadline: Duration,
    period: Option<Duration>,
    step: Step<Op>,
)
    requires
        call_ensures(windows::set_timer, (deadline, period), step),
    ensures
        step is Reject <==> deadline@ / 100 > i64::MAX || (period matches Some(period) && period@
            / 1_000_000 > i32::MAX),
        step is Call ==> {
            let setting = step->op->SetTimer_0;
            &&& step->on_error is Fail && step->op is SetTimer
            &&& setting.due_time <= 0
            &&& -setting.due_time * 100 <= deadline@ < -setting.due_time * 100 + 100
            &&& match period {
                None => setting.period == 0,
                Some(period) => if period@ < 1_000_000 {
                    setting.period == 1
                } else {
                    setting.period * 1_000_000 <= period@ < (setting.period + 1) * 1_000_000
                },
            }
        },
{
}

/// A timer is made with high resolution and the rights that its use needs. That it cannot be made
/// is a failure, and that it cannot be stopped is none.
pub proof fn law_timer_is_made_and_stopped<C>(
    made: Step<Op>,
    canceled: Step<Op>,
    stopped: Vec<Step<Op>>,
    pre: State,
    post: State,
)
    requires
        call_ensures(windows::new_timer, (), made),
        call_ensures(windows::cancel_timer, (), canceled),
        call_ensures(Timer::<C>::stop, (), stopped),
    ensures
        made is Call && made->on_error is Fail,
        model::takes(pre, made, post) ==> post is Some && post->0.high_resolution
            && post->0.access.modify_state && post->0.access.query_state
            && post->0.access.synchronize,
        canceled is Call && canceled->on_error is Ignore && canceled->op is CancelTimer,
        stopped@ == seq![canceled],
{
}

/// To clear a timer forgets its firings and the task that waits, and begins a new generation. The
/// timer keeps the system's timer, its packet and its context.
pub proof fn law_clear_keeps_what_the_timer_holds<C, T, W, P>(
    timer: &mut Timer<C>,
    state: &mut SharedTimerState<T, W, P>,
)
    requires
        call_ensures(Timer::<C>::clear::<T, W, P>, (timer, state), ()),
    ensures
        final(state).wait_completion_packet == old(state).wait_completion_packet,
        final(state).timer == old(state).timer,
        final(timer).context == old(timer).context,
        final(state).waker is None,
        final(state).fired_counter is None,
        final(timer).last_fired is None,
        final(state).generation != old(state).generation,
        old(state).generation % 2 == 0 ==> final(state).generation % 2 == 0,
{
}

/// An entry counts exactly if the timer has not been cleared since its packet was associated. One
/// that counts is one more firing, and asks for another association exactly if the timer has its
/// packet; one that does not count changes nothing. The waker and the packet stay.
pub proof fn law_entry_counts_or_changes_nothing<T, W, P>(
    state: &mut SharedTimerState<T, W, P>,
    completion_key: usize,
    delivery: Delivery,
)
    requires
        old(state).fired_counter != Some(usize::MAX),
        call_ensures(
            SharedTimerState::<T, W, P>::deliver,
            (state, completion_key),
            delivery,
        ),
    ensures
        delivery.counts <==> completion_key == old(state).generation,
        delivery.again <==> delivery.counts && old(state).wait_completion_packet is Some,
        !delivery.counts ==> *final(state) == *old(state),
        delivery.counts ==> final(state).fired_counter == match old(state).fired_counter {
            None => Some(0usize),
            Some(count) => Some((count + 1) as usize),
        },
        final(state).waker == old(state).waker,
        final(state).wait_completion_packet == old(state).wait_completion_packet,
        final(state).timer == old(state).timer,
        final(state).generation == old(state).generation,
{
}

/// After a clear, entries by the key from before do not count, and those by the new key do. Each of
/// these asks for another association, if the timer had its packet before the clear.
pub proof fn law_firings_go_on_after_a_clear<C, T, W, P>(
    timer: &mut Timer<C>,
    state: &mut SharedTimerState<T, W, P>,
    later: &mut SharedTimerState<T, W, P>,
    completion_key: usize,
    delivery: Delivery,
)
    requires
        call_ensures(Timer::<C>::clear::<T, W, P>, (timer, state), ()),
        *old(later) == *final(state),
        call_ensures(
            SharedTimerState::<T, W, P>::deliver,
            (later, completion_key),
            delivery,
        ),
    ensures
        completion_key == old(state).generation ==> !delivery.counts && !delivery.again,
        completion_key == final(state).generation ==> delivery.counts && delivery.again == (old(
            state,
        ).wait_completion_packet is Some),
        final(later).wait_completion_packet == old(state).wait_completion_packet,
{
}

/// A firing that was delivered is seen by the next poll, and not by the one after that, if no other
/// comes in between; the task that polled last is the one to be woken.
pub proof fn law_delivered_firing_is_seen_once<C, T, W, P>(
    state: &mut SharedTimerState<T, W, P>,
    completion_key: usize,
    delivery: Delivery,
    timer: &mut Timer<C>,
    polled: &mut SharedTimerState<T, W, P>,
    waker: W,
    answer: Poll<()>,
    timer_again: &mut Timer<C>,
    polled_again: &mut SharedTimerState<T, W, P>,
    waker_again: W,
    answer_again: Poll<()>,
)
    requires
        old(state).fired_counter != Some(usize::MAX),
        call_ensures(
            SharedTimerState::<T, W, P>::deliver,
            (state, completion_key),
            delivery,
        ),
        old(timer).last_fired == old(state).fired_counter,
        *old(polled) == *final(state),
        call_ensures(Timer::<C>::poll::<T, W, P>, (timer, polled, waker), answer),
        *old(timer_again) == *final(timer),
        *old(polled_again) == *final(polled),
        call_ensures(
            Timer::<C>::poll::<T, W, P>,
            (timer_again, polled_again, waker_again),
            answer_again,
        ),
    ensures
        answer is Ready <==> delivery.counts,
        answer_again is Pending,
        final(polled).waker == Some(waker),
        final(polled_again).waker == Some(waker_again),
        final(polled_again).fired_counter == final(state).fired_counter,
        final(polled_again).wait_completion_packet == old(state).wait_completion_packet,
        final(timer_again).context == old(timer).context,
{
}

/// A timer that was signaled when its packet was associated has fired, and one that was not has
/// not: the next poll says so.
pub proof fn law_early_signal_is_a_firing<C, T, W, P>(
    state: &mut SharedTimerState<T, W, P>,
    context: C,
    already_signaled: bool,
    timer: Timer<C>,
    polling: &mut Timer<C>,
    polled: &mut SharedTimerState<T, W, P>,
    waker: W,
    answer: Poll<()>,
)
    requires
        old(state).fired_counter is None,
        call_ensures(
            Timer::<C>::new::<T, W, P>,
            (state, context, already_signaled),
            timer,
        ),
        *old(polling) == timer,
        *old(polled) == *final(state),
        call_ensures(Timer::<C>::poll::<T, W, P>, (polling, polled, waker), answer),
    ensures
        timer.context == context,
        answer is Ready <==> already_signaled,
        final(state).wait_completion_packet == old(state).wait_completion_packet,
{
}

/// A signal at a later association is one more firing, and none is none.
pub proof fn law_later_signal_is_a_firing<T, W, P>(
    state: &mut SharedTimerState<T, W, P>,
    signaled: u8,
)
    requires
        old(state).fired_counter != Some(usize::MAX),
        call_ensures(SharedTimerState::<T, W, P>::reassociated, (state, signaled), ()),
    ensures
        signaled == 0 ==> *final(state) == *old(state),
        signaled != 0 ==> final(state).fired_counter == match old(state).fired_counter {
            None => Some(0usize),
            Some(count) => Some((count + 1) as usize),
        },
        final(state).waker == old(state).waker,
        final(state).wait_completion_packet == old(state).wait_completion_packet,
        final(state).generation == old(state).generation,
{
}

/// A new timer has not fired, is waited for by nobody, keeps the packet that it is given, and is
/// associated by a null key and its own context.
pub proof fn law_new_timer_is_enqueued<T, W, P, C>(
    timer: T,
    made: SharedTimerState<T, W, P>,
    state: &mut SharedTimerState<T, W, P>,
    packet: P,
    context: C,
    association: Association<C>,
)
    requires
        call_ensures(SharedTimerState::<T, W, P>::new, (timer,), made),
        *old(state) == made,
        call_ensures(windows::enqueue_timer::<T, W, P>, (state, packet), ()),
        call_ensures(
            SharedTimerState::<T, W, P>::association::<C>,
            (&*final(state), context),
            association,
        ),
    ensures
        made.wait_completion_packet is None,
        final(state).timer == timer,
        final(state).waker is None,
        final(state).fired_counter is None,
        final(state).wait_completion_packet == Some(packet),
        association.completion_key == 0,
        association.context == context,
{
}

/// The context goes to the system exactly if that took it, and is to be freed exactly if not; a
/// reply other than 0 says that the timer had been signaled.
pub proof fn law_context_is_held_or_freed<C, E>(
    context: C,
    reply: Result<u8, E>,
    result: Enqueued<C, E>,
)
    requires
        call_ensures(windows::enqueued::<C, E>, (context, reply), result),
    ensures
        result is Queued <==> reply is Ok,
        result is Queued ==> result->context == context && result->already_signaled == (reply->Ok_0
            != 0),
        result is Refused ==> result->free == context && result->Refused_error == reply->Err_0,
{
}

/// A timer that is released hands over its packet, to be taken back, and its context, to be freed
/// by an entry that the background thread takes for nothing else. After that no entry asks for
/// another association.
pub proof fn law_released_timer_gives_up_its_packet<C, T, W, P>(
    timer: Timer<C>,
    state: &mut SharedTimerState<T, W, P>,
    release: Release<P, C>,
    later: &mut SharedTimerState<T, W, P>,
    completion_key: usize,
    delivery: Delivery,
)
    requires
        call_ensures(Timer::<C>::release::<T, W, P>, (timer, state), release),
        *old(later) == *final(state),
        call_ensures(
            SharedTimerState::<T, W, P>::deliver,
            (later, completion_key),
            delivery,
        ),
    ensures
        release.cancel == old(state).wait_completion_packet,
        release.context == timer.context,
        release.completion_key == BackgroundTimerThread::DROP_KEY,
        release.completion_key % 2 == 1,
        !delivery.again,
{
}

/// The task to be woken is the one that polled last, if any.
pub proof fn law_task_to_wake_is_the_one_that_waits<T, W, P>(
    state: SharedTimerState<T, W, P>,
    woken: Option<&W>,
)
    requires
        call_ensures(SharedTimerState::<T, W, P>::wake, (&state,), woken),
    ensures
        woken is Some <==> state.waker is Some,
        woken is Some ==> *(woken->0) == state.waker->0,
{
}

/// A firing is counted: the counter moves on by one, and nothing else changes. The background
/// thread begins by waiting.
pub proof fn law_firing_is_counted<T, W, P>(
    state: &mut SharedTimerState<T, W, P>,
    thread: BackgroundTimerThread,
)
    requires
        old(state).fired_counter != Some(usize::MAX),
        call_ensures(SharedTimerState::<T, W, P>::fired, (state,), ()),
        call_ensures(BackgroundTimerThread::start, (), thread),
    ensures
        final(state).fired_counter == match old(state).fired_counter {
            None => Some(0usize),
            Some(count) => Some((count + 1) as usize),
        },
        final(state).fired_counter != old(state).fired_counter,
        final(state).timer == old(state).timer,
        final(state).waker == old(state).waker,
        final(state).generation == old(state).generation,
        final(state).wait_completion_packet == old(state).wait_completion_packet,
        thread is Waiting,
{
}

/// What can be called: a firing can be noted as long as the counter has room for it, and one that
/// does not count needs no room; a packet can be kept as long as there is none.
pub proof fn law_calls_can_be_made<C, T, W, P>(
    state: &mut SharedTimerState<T, W, P>,
    completion_key: usize,
    signaled: u8,
    context: C,
    already_signaled: bool,
    packet: P,
)
    ensures
        ({
            let room = old(state).fired_counter != Some(usize::MAX);
            &&& room ==> call_requires(SharedTimerState::<T, W, P>::fired, (state,))
            &&& room || completion_key != old(state).generation ==> call_requires(
                SharedTimerState::<T, W, P>::deliver,
                (state, completion_key),
            )
            &&& room || signaled == 0 ==> call_requires(
                SharedTimerState::<T, W, P>::reassociated,
                (state, signaled),
            )
            &&& room || !already_signaled ==> call_requires(
                Timer::<C>::new::<T, W, P>,
                (state, context, already_signaled),
            )
            &&& old(state).wait_completion_packet is None ==> call_requires(
                windows::enqueue_timer::<T, W, P>,
                (state, packet),
            )
        }),
{
}

} // verus!
