//! What the operations of this crate make of a kqueue.
//!
//! Each law speaks of a call by what its contract says of its result. It holds of every state of
//! the system that the calls can lead to, and says that there is one.

use vstd::prelude::*;

use crate::apple;
use crate::apple::kernel;
use crate::apple::kernel::{Kqueue, State, Timer as KernelTimer};
use crate::apple::{Apple, KeventCall, Op};
use crate::backend::Backend;
use crate::model;
use crate::model::System;
use crate::poll::Attempt;
use crate::procedure::{Progress, Step};
use crate::schedule::{Program, Schedule};
use crate::smol::{Timer, TimerType};
use crate::time::Duration;
use crate::tokio::{ClockType, Interval, Sleep};

verus! {

/// Whether all that `program` says fits an `isize`, in nanoseconds.
pub open spec fn program_fits(program: Option<Program>) -> bool {
    program matches Some(program) ==> program.first <= isize::MAX && program.period <= isize::MAX
}

impl KernelTimer {
    /// Whether the timer counts the time that the system spends asleep exactly if `track` says so.
    pub open spec fn tracks(self, track: bool) -> bool {
        forall|awake: nat, asleep: nat| #[trigger]
            self.advance(awake, asleep) == awake + if track {
                asleep
            } else {
                0
            }
    }
}

/// Whether the procedure makes a kqueue that is watched, and adds one timer to it, which tracks
/// sleep or not, as `track` says, and has been told `program`; or none, if there is no program.
pub open spec fn makes<T, E>(
    progress: Progress<Op, T, E>,
    track: bool,
    program: Option<Program>,
) -> bool {
    &&& progress is Perform
    &&& forall|post: State| #[trigger]
        model::reaches(None, progress->Perform_0.steps(), post) ==> {
            &&& post is Some
            &&& post->0.watched && post->0.cloexec && post->0.ours()
            &&& match program {
                Some(_) => {
                    &&& post->0.has_only(post->0.own())
                    &&& post->0.own().tracks(track)
                    &&& post->0.own().countdown.program == program
                    &&& post->0.own().countdown.noticed == 0
                    &&& post->0.own().countdown.set_at <= post->0.own().countdown.now
                },
                None => post->0.is_idle(),
            }
        }
    &&& program_fits(program) ==> model::possible(None::<Kqueue>, progress->Perform_0.steps())
}

/// Whether the procedure leaves any kqueue with what it holds, but for the timer: that one is
/// replaced by one that tracks sleep or not, as `track` says, and has just been told `program`, or
/// deleted if there is no program. If there was no other timer, there is none after that.
pub open spec fn resets<E>(
    progress: Progress<Op, (), E>,
    track: bool,
    program: Option<Program>,
) -> bool {
    &&& progress is Perform
    &&& forall|pre: State, post: State|
        pre is Some && #[trigger] model::reaches(pre, progress->Perform_0.steps(), post) ==> {
            &&& post is Some
            &&& post == Some(Kqueue { timers: post->0.timers, ..pre->0 })
            &&& pre->0.ours() ==> post->0.ours()
            &&& match program {
                Some(_) => {
                    &&& post->0.has_own()
                    &&& pre->0.ours() ==> post->0.has_only(post->0.own())
                    &&& post->0.own().tracks(track)
                    &&& post->0.own().countdown.program == program
                    &&& post->0.own().countdown.noticed == 0
                    &&& post->0.own().countdown.set_at == post->0.own().countdown.now
                },
                None => {
                    &&& !post->0.has_own()
                    &&& pre->0.ours() ==> post->0.is_idle()
                },
            }
        }
    &&& program_fits(program) ==> forall|pre: State|
        pre is Some ==> #[trigger] model::possible(pre, progress->Perform_0.steps())
}

proof fn lemma_arming_is_possible(track: bool, schedule: Schedule, pre: State) -> (post: State)
    requires
        pre is Some,
        schedule is OneShot || schedule is Interval,
        program_fits(kernel::told(schedule)),
    ensures
        model::takes(pre, kernel::arm_steps(track, schedule)[0], post),
        post is Some,
        post->0.watched == pre->0.watched,
{
    let op = kernel::arm_steps(track, schedule)[0]->op;
    let event = op->Kevent_0.change->0;
    let timer = KernelTimer::added(track, kernel::told(schedule)->0, 0);
    let post = Some(Kqueue { timers: pre->0.timers.insert(event.ident, timer), ..pre->0 });
    assert(post->0.timers[event.ident] == timer);
    assert(pre->0.is_changed(op->Kevent_0, post->0));
    assert(pre->0.is_called(op->Kevent_0, post->0));
    assert(pre.succeeds(op, post));
    post
}

proof fn lemma_registering_is_possible(pre: State, steps: Seq<Step<Op>>)
    requires
        pre is Some,
        !pre->0.watched,
        steps == Apple::register_steps(),
    ensures
        model::possible(pre, steps),
{
    let post = Some(Kqueue { watched: true, ..pre->0 });
    assert(pre.succeeds(steps[0]->op, post));
    assert(model::reaches(post, steps.drop_first(), post));
    model::lemma_one_more_step(pre, steps, post, post);
}

proof fn lemma_opening_is_possible(track: bool, schedule: Schedule)
    requires
        !(schedule is IntervalAt),
        program_fits(kernel::told(schedule)),
    ensures
        model::possible(None::<Kqueue>, kernel::open_steps(track, schedule)),
{
    let steps = kernel::open_steps(track, schedule);
    let none: State = None;
    let made: State = Some(Kqueue { timers: Map::empty(), cloexec: false, watched: false });
    let closing: State = Some(Kqueue { cloexec: true, ..made->0 });
    assert(steps[0] == Apple::create_steps(track)[0]);
    assert(none.succeeds(steps[0]->op, made));
    let second = steps.drop_first();
    assert(second[0] == Apple::create_steps(track)[1]);
    assert(made.succeeds(second[0]->op, closing));
    let rest = second.drop_first();
    if schedule is Never {
        assert(rest =~= Apple::register_steps());
        lemma_registering_is_possible(closing, rest);
    } else {
        assert(rest =~= kernel::arm_steps(track, schedule) + Apple::register_steps());
        assert(rest[0] == kernel::arm_steps(track, schedule)[0]);
        let armed = lemma_arming_is_possible(track, schedule, closing);
        assert(rest.drop_first() =~= Apple::register_steps());
        lemma_registering_is_possible(armed, rest.drop_first());
        let post = choose|post: State| model::reaches(armed, rest.drop_first(), post);
        model::lemma_one_more_step(closing, rest, armed, post);
    }
    let post = choose|post: State| model::reaches(closing, rest, post);
    model::lemma_one_more_step(made, second, closing, post);
    model::lemma_one_more_step(none, steps, made, post);
}

proof fn lemma_clearing_is_possible(pre: State) -> (post: State)
    requires
        pre is Some,
    ensures
        post is Some,
        model::takes(pre, Apple::clear_steps()[0], post),
{
    let op = Apple::clear_steps()[0]->op;
    let call = op->Kevent_0;
    let changed = Kqueue { timers: pre->0.timers.remove(call.change->0.ident), ..pre->0 };
    assert(pre->0.is_changed(call, changed));
    let post = if changed.due() {
        let id = choose|id: usize|
            changed.timers.contains_key(id) && (#[trigger] changed.timers[id]).countdown.due();
        let post = Kqueue {
            timers: changed.timers.insert(
                id,
                KernelTimer {
                    countdown: changed.timers[id].countdown.notice(),
                    ..changed.timers[id]
                },
            ),
            ..changed
        };
        assert(changed.delivers(1, post));
        post
    } else {
        assert(changed.delivers(0, changed));
        changed
    };
    assert(pre->0.is_called(call, post));
    assert(pre.succeeds(op, Some(post)));
    Some(post)
}

proof fn lemma_resetting_is_possible(track: bool, schedule: Schedule, pre: State)
    requires
        pre is Some,
        !(schedule is IntervalAt),
        program_fits(kernel::told(schedule)),
    ensures
        model::possible(pre, kernel::reset_steps(track, schedule)),
{
    let steps = kernel::reset_steps(track, schedule);
    let arm = kernel::arm_steps(track, schedule);
    assert(steps =~= Apple::clear_steps() + arm);
    assert(steps[0] == Apple::clear_steps()[0]);
    assert(steps.drop_first() =~= arm);
    let cleared = lemma_clearing_is_possible(pre);
    if schedule is Never {
        assert(model::reaches(cleared, arm, cleared));
        model::lemma_one_more_step(pre, steps, cleared, cleared);
    } else {
        let armed = lemma_arming_is_possible(track, schedule, cleared);
        assert(model::reaches(armed, arm.drop_first(), armed));
        model::lemma_one_more_step(cleared, arm, armed, armed);
        model::lemma_one_more_step(pre, steps, cleared, armed);
    }
}

proof fn lemma_makes<T, E>(
    progress: Progress<Op, T, E>,
    value: T,
    track: bool,
    schedule: Schedule,
)
    requires
        !(schedule is IntervalAt),
        progress.is_at(kernel::open_steps(track, schedule), value),
    ensures
        makes(progress, track, kernel::told(schedule)),
        progress->Perform_0.value() == value,
{
    let steps = kernel::open_steps(track, schedule);
    assert(steps[0] == Apple::create_steps(track)[0]);
    assert forall|post: State| #[trigger] model::reaches(None, steps, post) implies {
        &&& post is Some
        &&& post->0.watched && post->0.cloexec && post->0.ours()
        &&& match kernel::told(schedule) {
            Some(_) => {
                &&& post->0.has_only(post->0.own())
                &&& post->0.own().tracks(track)
                &&& post->0.own().countdown.program == kernel::told(schedule)
                &&& post->0.own().countdown.noticed == 0
                &&& post->0.own().countdown.set_at <= post->0.own().countdown.now
            },
            None => post->0.is_idle(),
        }
    } by {
        kernel::law_new_timer_follows_its_schedule(track, schedule, post);
    }
    if program_fits(kernel::told(schedule)) {
        lemma_opening_is_possible(track, schedule);
    }
}

proof fn lemma_resets<E>(progress: Progress<Op, (), E>, track: bool, schedule: Schedule)
    requires
        !(schedule is IntervalAt),
        progress.is_at(kernel::reset_steps(track, schedule), ()),
    ensures
        resets(progress, track, kernel::told(schedule)),
{
    let steps = kernel::reset_steps(track, schedule);
    assert(steps[0] == Apple::clear_steps()[0]);
    assert forall|pre: State, post: State|
        pre is Some && #[trigger] model::reaches(pre, steps, post) implies {
        &&& post is Some
        &&& post == Some(Kqueue { timers: post->0.timers, ..pre->0 })
        &&& pre->0.ours() ==> post->0.ours()
        &&& match kernel::told(schedule) {
            Some(_) => {
                &&& post->0.has_own()
                &&& pre->0.ours() ==> post->0.has_only(post->0.own())
                &&& post->0.own().tracks(track)
                &&& post->0.own().countdown.program == kernel::told(schedule)
                &&& post->0.own().countdown.noticed == 0
                &&& post->0.own().countdown.set_at == post->0.own().countdown.now
            },
            None => {
                &&& !post->0.has_own()
                &&& pre->0.ours() ==> post->0.is_idle()
            },
        }
    } by {
        if schedule is Never {
            assert(steps =~= Apple::clear_steps() + Seq::empty());
            let cleared = kernel::lemma_clearing(pre, Seq::empty(), post);
        } else {
            kernel::law_reset_timer_follows_its_new_schedule(track, schedule, pre, post);
        }
    }
    if program_fits(kernel::told(schedule)) {
        assert forall|pre: State| pre is Some implies #[trigger] model::possible(pre, steps) by {
            lemma_resetting_is_possible(track, schedule, pre);
        }
    }
}

/// A sleep of tokio fires once, when its duration has passed, or at once if that is zero.
pub proof fn law_tokio_sleep_fires_once<E>(
    clock: ClockType,
    duration: Duration,
    progress: Progress<Op, Sleep, E>,
)
    requires
        call_ensures(ClockType::sleep::<Apple, E>, (&clock, duration), progress),
    ensures
        makes(
            progress,
            clock is TrackSleep,
            Some(
                Program {
                    first: duration@,
                    period: 0,
                },
            ),
        ),
        progress->Perform_0.value().clock() == clock,
{
    crate::tokio::law_timers_remember_their_creation(clock, duration);
    let schedule = Schedule::OneShot(duration@);
    let value = Sleep::on(clock);
    lemma_makes(progress, value, clock is TrackSleep, schedule);
}

/// An interval of tokio fires each time its period has passed.
pub proof fn law_tokio_interval_fires_each_period<E>(
    clock: ClockType,
    duration: Duration,
    progress: Progress<Op, Interval, E>,
)
    requires
        call_ensures(ClockType::interval::<Apple, E>, (&clock, duration), progress),
    ensures
        makes(
            progress,
            clock is TrackSleep,
            Some(
                Program {
                    first: if duration@ == 0 {
                        1
                    } else {
                        duration@
                    },
                    period: if duration@ == 0 {
                        1
                    } else {
                        duration@
                    },
                },
            ),
        ),
        progress->Perform_0.value().clock() == clock,
        progress->Perform_0.value().period() == duration@,
{
    crate::tokio::law_timers_remember_their_creation(clock, duration);
    let schedule = Schedule::Interval(duration@);
    let value = Interval::on(clock, duration);
    lemma_makes(progress, value, clock is TrackSleep, schedule);
}

/// A timer of smol that is to fire once does, when its duration has passed.
pub proof fn law_smol_timer_fires_once<E>(
    ty: TimerType,
    duration: Duration,
    progress: Progress<Op, Timer, E>,
)
    requires
        call_ensures(TimerType::after::<Apple, E>, (&ty, duration), progress),
    ensures
        makes(
            progress,
            ty is TrackSleep,
            Some(
                Program {
                    first: duration@,
                    period: 0,
                },
            ),
        ),
        progress->Perform_0.value().ty() == ty,
{
    crate::smol::law_timers_remember_their_creation(ty);
    let schedule = Schedule::OneShot(duration@);
    let value = Timer::on(ty);
    lemma_makes(progress, value, ty is TrackSleep, schedule);
}

/// An interval of smol fires each time its period has passed.
pub proof fn law_smol_interval_fires_each_period<E>(
    ty: TimerType,
    duration: Duration,
    progress: Progress<Op, Timer, E>,
)
    requires
        call_ensures(TimerType::interval::<Apple, E>, (&ty, duration), progress),
    ensures
        makes(
            progress,
            ty is TrackSleep,
            Some(
                Program {
                    first: if duration@ == 0 {
                        1
                    } else {
                        duration@
                    },
                    period: if duration@ == 0 {
                        1
                    } else {
                        duration@
                    },
                },
            ),
        ),
        progress->Perform_0.value().ty() == ty,
{
    crate::smol::law_timers_remember_their_creation(ty);
    let schedule = Schedule::Interval(duration@);
    let value = Timer::on(ty);
    lemma_makes(progress, value, ty is TrackSleep, schedule);
}

/// A timer of smol that is never to fire is not told anything.
pub proof fn law_smol_never_is_told_nothing<E>(
    ty: TimerType,
    progress: Progress<Op, Timer, E>,
)
    requires
        call_ensures(TimerType::never::<Apple, E>, (&ty,), progress),
    ensures
        makes(
            progress,
            ty is TrackSleep,
            None,
        ),
        progress->Perform_0.value().ty() == ty,
{
    crate::smol::law_timers_remember_their_creation(ty);
    let schedule = Schedule::Never;
    let value = Timer::on(ty);
    lemma_makes(progress, value, ty is TrackSleep, schedule);
}

/// A sleep of tokio that is reset fires once, when the new duration has passed since then.
pub proof fn law_tokio_sleep_can_be_reset<E>(
    timer: &mut Sleep,
    duration: Duration,
    progress: Progress<Op, (), E>,
)
    requires
        call_ensures(Sleep::reset::<Apple, E>, (timer, duration), progress),
    ensures
        resets(
            progress,
            old(timer).clock() is TrackSleep,
            Some(
                Program {
                    first: duration@,
                    period: 0,
                },
            ),
        ),
        *final(timer) == *old(timer),
{
    let schedule = Schedule::OneShot(duration@);
    lemma_resets(progress, old(timer).clock().tracks_sleep(), schedule);
}

/// An interval of tokio that is reset fires each time the period that it was made with has passed.
pub proof fn law_tokio_interval_can_be_reset<E>(
    timer: &mut Interval,
    progress: Progress<Op, (), E>,
)
    requires
        call_ensures(Interval::reset::<Apple, E>, (timer,), progress),
    ensures
        resets(
            progress,
            old(timer).clock() is TrackSleep,
            Some(
                Program {
                    first: if old(timer).period() == 0 {
                        1
                    } else {
                        old(timer).period()
                    },
                    period: if old(timer).period() == 0 {
                        1
                    } else {
                        old(timer).period()
                    },
                },
            ),
        ),
        *final(timer) == *old(timer),
{
    let schedule = Schedule::Interval(old(timer).period());
    lemma_resets(progress, old(timer).clock().tracks_sleep(), schedule);
}

/// A timer of smol that is cleared is disarmed.
pub proof fn law_smol_timer_can_be_cleared<E>(
    timer: &mut Timer,
    progress: Progress<Op, (), E>,
)
    requires
        call_ensures(Timer::clear::<Apple, E>, (timer,), progress),
    ensures
        resets(
            progress,
            old(timer).ty() is TrackSleep,
            None,
        ),
        *final(timer) == *old(timer),
{
    let schedule = Schedule::Never;
    assert(Apple::clear_steps() =~= kernel::reset_steps(
        old(timer).ty().tracks_sleep(),
        schedule,
    ));
    lemma_resets(progress, old(timer).ty().tracks_sleep(), schedule);
}

/// A timer of smol that is set fires once, when the new duration has passed since then.
pub proof fn law_smol_timer_can_be_set<E>(
    timer: &mut Timer,
    duration: Duration,
    progress: Progress<Op, (), E>,
)
    requires
        call_ensures(Timer::set_after::<Apple, E>, (timer, duration), progress),
    ensures
        resets(
            progress,
            old(timer).ty() is TrackSleep,
            Some(
                Program {
                    first: duration@,
                    period: 0,
                },
            ),
        ),
        *final(timer) == *old(timer),
{
    let schedule = Schedule::OneShot(duration@);
    lemma_resets(progress, old(timer).ty().tracks_sleep(), schedule);
}

/// A timer of smol that is set to an interval fires each time its period has passed.
pub proof fn law_smol_interval_can_be_set<E>(
    timer: &mut Timer,
    period: Duration,
    progress: Progress<Op, (), E>,
)
    requires
        call_ensures(Timer::set_interval::<Apple, E>, (timer, period), progress),
    ensures
        resets(
            progress,
            old(timer).ty() is TrackSleep,
            Some(
                Program {
                    first: if period@ == 0 {
                        1
                    } else {
                        period@
                    },
                    period: if period@ == 0 {
                        1
                    } else {
                        period@
                    },
                },
            ),
        ),
        *final(timer) == *old(timer),
{
    let schedule = Schedule::Interval(period@);
    lemma_resets(progress, old(timer).ty().tracks_sleep(), schedule);
}

/// No call waits for an event: each has a timeout of nothing at all. The call that adds a timer has
/// no room for an event, so that it takes none that a poll is to see, and no change carries data of
/// its own.
pub proof fn law_calls_do_not_wait(
    track: bool,
    is_oneshot: bool,
    duration: Duration,
    added: Step<Op>,
    removed: Step<Op>,
    received: KeventCall,
)
    requires
        call_ensures(apple::add_timer, (track, is_oneshot, duration), added),
        call_ensures(apple::remove_timer, (), removed),
        call_ensures(apple::receive, (), received),
    ensures
        waits_for_nothing(added),
        added is Call ==> added->op->Kevent_0.capacity == 0,
        waits_for_nothing(removed),
        received.timeout.valid() && received.timeout.nanos() == 0,
        received.change is None && received.capacity == 1,
{
}

/// Whether the step makes no call to `kevent` that waits, or that hands over data of its own.
pub open spec fn waits_for_nothing(step: Step<Op>) -> bool {
    step matches Step::Call { op, .. } ==> {
        let call = op->Kevent_0;
        &&& op is Kevent
        &&& call.timeout.valid() && call.timeout.nanos() == 0
        &&& call.change is Some && call.change->0.udata == 0
    }
}

/// A duration is refused exactly if it does not fit an `isize` in nanoseconds. Otherwise a timer is
/// added that is told that very duration, in any kqueue, and that it cannot be added is a failure.
pub proof fn law_duration_is_added_or_refused(
    track: bool,
    is_oneshot: bool,
    duration: Duration,
    step: Step<Op>,
    pre: State,
    post: State,
)
    requires
        pre is Some,
        call_ensures(apple::add_timer, (track, is_oneshot, duration), step),
    ensures
        step is Reject <==> duration@ > isize::MAX,
        step is Call ==> step->on_error is Fail,
        model::takes(pre, step, post) ==> {
            &&& post->0.has_own()
            &&& post->0.own().tracks(track)
            &&& post->0.own().countdown.program == Some(
                Program {
                    first: duration@,
                    period: if is_oneshot {
                        0
                    } else {
                        duration@
                    },
                },
            )
            &&& post->0.own().countdown.noticed == 0
        },
{
}

/// What is added can be removed, by the same identifier, and nothing else is.
pub proof fn law_removal_undoes_addition(
    track: bool,
    is_oneshot: bool,
    duration: Duration,
    added: Step<Op>,
    removed: Step<Op>,
    pre: State,
    mid: State,
    post: State,
)
    requires
        pre is Some,
        pre->0.is_idle(),
        call_ensures(apple::add_timer, (track, is_oneshot, duration), added),
        call_ensures(apple::remove_timer, (), removed),
        model::takes(pre, added, mid),
        model::takes(mid, removed, post),
    ensures
        post->0.is_idle(),
{
    assert(model::reaches(post, seq![removed].drop_first(), post));
    assert(mid.idles(mid));
    model::lemma_one_more_step(mid, seq![removed], post, post);
    assert(seq![removed] =~= Apple::clear_steps() + Seq::empty());
    let cleared = kernel::lemma_clearing(mid, Seq::empty(), post);
}

/// A kqueue is made, and then made to be closed when another program is executed.
pub proof fn law_kqueue_is_closed_on_execution(steps: Vec<Step<Op>>, post: State)
    requires
        call_ensures(apple::kqueue, (), steps),
        model::reaches(None, steps@, post),
    ensures
        post is Some,
        post->0.cloexec,
        post->0.is_idle(),
{
    let (_, made) = model::lemma_first_step(None::<Kqueue>, steps@, post);
    let (idle, closing) = model::lemma_first_step(made, steps@.drop_first(), post);
    assert(idle->0.timers =~= Map::empty());
    assert(steps@.drop_first().drop_first().len() == 0);
}

/// An attempt finds a firing exactly if an event was delivered, and none exactly if none was; an
/// error is handed on.
pub proof fn law_attempt_goes_by_the_events<E>(reply: Result<usize, E>, attempt: Attempt<E>)
    requires
        call_ensures(apple::attempt::<E>, (reply,), attempt),
    ensures
        attempt is Fired <==> (reply matches Ok(num_events) && num_events > 0),
        attempt is WouldBlock <==> (reply matches Ok(num_events) && num_events == 0),
        reply matches Err(error) ==> attempt == Attempt::Failed(error),
{
}

} // verus!
