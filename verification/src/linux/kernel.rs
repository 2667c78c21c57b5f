//! What the calls of this crate do to a `timerfd`, and what follows from it.
//!
//! The effects of the calls are those that `timerfd_create(2)` describes.

use vstd::prelude::*;

use crate::backend;
use crate::backend::{Backend, DelayedStart};
use crate::countdown::Countdown;
use crate::linux;
use crate::linux::{ClockId, Expiration, Linux, Op};
use crate::model;
use crate::model::System;
use crate::poll;
use crate::poll::{Attempt, Poll, Round};
use crate::procedure::{ErrorKind, Failure, Step};
use crate::schedule::{Program, Schedule};
use crate::smol;
use crate::time;
use crate::time::TimeSpec;

verus! {

/// The state of a `timerfd`.
pub struct TimerFd {
    /// The clock that it follows.
    pub clock_id: ClockId,
    /// How it was set last, and how many of its expirations since then have been read.
    pub countdown: Countdown,
    /// Whether a read returns at once, rather than wait for an expiration.
    pub nonblock: bool,
    /// Whether it is closed when another program is executed.
    pub cloexec: bool,
    /// Whether the reactor watches it.
    pub watched: bool,
}

impl ClockId {
    /// By how much the clock advances while the system is awake for a span of `awake` and asleep
    /// for a span of `asleep`.
    pub open spec fn advance(self, awake: nat, asleep: nat) -> nat {
        match self {
            ClockId::Monotonic => awake,
            ClockId::Boottime => awake + asleep,
        }
    }
}

impl Expiration {
    /// When the first expiration comes, in nanoseconds; 0 disarms.
    pub open spec fn value(self) -> TimeSpec {
        match self {
            Expiration::OneShot(value) => value,
            Expiration::Interval(value) => value,
            Expiration::IntervalDelayed(value, _) => value,
        }
    }

    /// The time between two expirations; 0 if there is only one.
    pub open spec fn interval(self) -> TimeSpec {
        match self {
            Expiration::OneShot(_) => TimeSpec { tv_sec: 0, tv_nsec: 0 },
            Expiration::Interval(interval) => interval,
            Expiration::IntervalDelayed(_, interval) => interval,
        }
    }

    /// What the timer is told, unless it is disarmed.
    pub open spec fn program(self) -> Option<Program> {
        if self.value().nanos() == 0 {
            None
        } else {
            Some(
                Program {
                    first: self.value().nanos() as nat,
                    period: self.interval().nanos() as nat,
                },
            )
        }
    }
}

/// The timer of a program, once it has been made.
pub type State = Option<TimerFd>;

impl System for State {
    type Op = Op;

    open spec fn idles(self, post: State) -> bool {
        match self {
            None => post is None,
            Some(before) => {
                &&& post is Some
                &&& before.countdown.passes(post->0.countdown)
                &&& post == Some(TimerFd { countdown: post->0.countdown, ..before })
            },
        }
    }

    /// A program makes one timer, and has the reactor watch it once.
    open spec fn succeeds(self, op: Op, post: State) -> bool {
        match op {
            Op::NewTimer { clock_id, flags } => {
                &&& self is None
                &&& post is Some
                &&& post == Some(
                    TimerFd {
                        clock_id,
                        countdown: Countdown::idle(post->0.countdown.now),
                        nonblock: flags.nonblock,
                        cloexec: flags.cloexec,
                        watched: false,
                    },
                )
            },
            Op::SetTime { expiration } => {
                &&& self is Some
                &&& expiration.value().valid() && expiration.interval().valid()
                &&& post == Some(
                    TimerFd { countdown: self->0.countdown.set(expiration.program()), ..self->0 },
                )
            },
            Op::Unset => {
                &&& self is Some
                &&& post == Some(TimerFd { countdown: self->0.countdown.set(None), ..self->0 })
            },
            Op::Wait => {
                &&& self is Some && self->0.countdown.due()
                &&& post == Some(TimerFd { countdown: self->0.countdown.notice(), ..self->0 })
            },
            Op::Register => {
                &&& self is Some && !self->0.watched
                &&& post == Some(TimerFd { watched: true, ..self->0 })
            },
        }
    }

    /// A call that fails leaves the timer as it is. A read would have to wait exactly if there is
    /// no expiration to be read.
    open spec fn fails(self, op: Op, kind: ErrorKind, post: State) -> bool {
        &&& post == self
        &&& kind is WouldBlock ==> op is Wait && self is Some && !self->0.countdown.due()
    }
}

/// The steps that arm a timer for `schedule`.
pub open spec fn arm_steps(track: bool, schedule: Schedule) -> Seq<Step<Op>> {
    match schedule {
        Schedule::Never => Seq::empty(),
        Schedule::OneShot(after) => Linux::one_shot_steps(track, after),
        Schedule::Interval(period) => Linux::interval_steps(track, period),
        Schedule::IntervalAt(start, period) => Linux::interval_at_steps(track, start, period),
    }
}

/// The steps that make a timer and arm it for `schedule`.
pub open spec fn open_steps(track: bool, schedule: Schedule) -> Seq<Step<Op>> {
    backend::open_steps::<Linux>(track, arm_steps(track, schedule))
}

/// The steps that clear a timer and arm it anew for `schedule`.
pub open spec fn reset_steps(track: bool, schedule: Schedule) -> Seq<Step<Op>> {
    backend::reset_steps::<Linux>(arm_steps(track, schedule))
}

/// Whether a duration can be as long as `nanos` nanoseconds.
pub open spec fn is_duration(nanos: nat) -> bool {
    time::whole_secs(nanos) <= u64::MAX
}

/// The system only accepts spans that it can represent, and then it is told the exact span.
proof fn lemma_accepted_span_is_exact(nanos: nat)
    requires
        is_duration(nanos),
        TimeSpec::of(nanos).valid(),
    ensures
        TimeSpec::of(nanos).nanos() == nanos,
{
    let secs = time::whole_secs(nanos) as u64;
    assert(secs > i64::MAX ==> (secs as i64) < 0) by (bit_vector);
    time::law_timespec_is_exact(nanos);
}

/// What the timer is told if it is to fire by `schedule`. A span of zero is told as one nanosecond.
pub open spec fn told(schedule: Schedule) -> Option<Program> {
    match schedule {
        Schedule::Never => None,
        Schedule::OneShot(after) => Some(Program { first: time::or_nanosecond(after), period: 0 }),
        Schedule::Interval(period) => Some(
            Program { first: time::or_nanosecond(period), period: time::or_nanosecond(period) },
        ),
        Schedule::IntervalAt(start, period) => Some(
            Program { first: time::or_nanosecond(start), period: time::or_nanosecond(period) },
        ),
    }
}

/// Where no span is zero, the timer is told exactly what was asked for.
pub proof fn law_schedule_is_told_exactly(schedule: Schedule)
    requires
        schedule.regular(),
    ensures
        told(schedule) == schedule.program(),
{
}

/// An interval repeats, whatever its period.
pub proof fn law_interval_repeats(schedule: Schedule, n: nat)
    requires
        schedule is Interval || schedule is IntervalAt,
    ensures
        told(schedule)->0.fire_time(n) is Some,
{
}

proof fn lemma_arming(track: bool, schedule: Schedule, pre: State, post: State)
    requires
        schedule.all_spans(|span: nat| is_duration(span)),
        !(schedule is Never),
        model::takes(pre, arm_steps(track, schedule)[0], post),
    ensures
        pre is Some,
        post == Some(TimerFd { countdown: pre->0.countdown.set(told(schedule)), ..pre->0 }),
{
    match schedule {
        Schedule::Never => {},
        Schedule::OneShot(after) => {
            lemma_accepted_span_is_exact(time::or_nanosecond(after));
        },
        Schedule::Interval(period) => {
            lemma_accepted_span_is_exact(time::or_nanosecond(period));
        },
        Schedule::IntervalAt(start, period) => {
            lemma_accepted_span_is_exact(time::or_nanosecond(start));
            lemma_accepted_span_is_exact(time::or_nanosecond(period));
        },
    }
}

/// A timer that has been made is watched by the reactor, follows the clock that was asked for, is
/// told to fire by the schedule that was asked for, and none of its firings has been taken note of.
pub proof fn law_new_timer_follows_its_schedule(track: bool, schedule: Schedule, post: State)
    requires
        schedule.all_spans(|span: nat| is_duration(span)),
        model::reaches(None, open_steps(track, schedule), post),
    ensures
        post is Some,
        post->0.watched,
        post->0.nonblock,
        post->0.cloexec,
        post->0.clock_id == ClockId::tracking(track),
        post->0.countdown.program == told(schedule),
        post->0.countdown.noticed == 0,
        post->0.countdown.set_at <= post->0.countdown.now,
{
    let steps = open_steps(track, schedule);
    let (_, made) = model::lemma_first_step(None::<TimerFd>, steps, post);
    let rest = steps.drop_first();
    if schedule is Never {
        assert(rest =~= Linux::register_steps());
        let (_, watched) = model::lemma_first_step(made, rest, post);
        assert(rest.drop_first().len() == 0);
    } else {
        assert(rest =~= arm_steps(track, schedule) + Linux::register_steps());
        assert(rest[0] == arm_steps(track, schedule)[0]);
        let (idle, armed) = model::lemma_first_step(made, rest, post);
        lemma_arming(track, schedule, idle, armed);
        assert(rest.drop_first() =~= Linux::register_steps());
        let (_, watched) = model::lemma_first_step(armed, rest.drop_first(), post);
        assert(rest.drop_first().drop_first().len() == 0);
    }
}

/// A sleep ends when its duration has passed on its clock, and not before: from then on, and only
/// from then on, its expiration can be read. A sleep of zero ends as soon as the clock moves.
pub proof fn law_sleep_ends_when_its_duration_has_passed(
    track: bool,
    nanos: nat,
    post: State,
    later: State,
)
    requires
        is_duration(nanos),
        model::reaches(None, open_steps(track, Schedule::OneShot(nanos)), post),
        post.idles(later),
    ensures
        later->0.countdown.due() <==> later->0.countdown.elapsed() >= time::or_nanosecond(nanos),
{
    law_new_timer_follows_its_schedule(track, Schedule::OneShot(nanos), post);
}

/// A timer fires for the first time when the first span of its schedule has passed, and not before.
/// For an interval that is its period, or the delay until its start. If that span is zero, it fires
/// as soon as the clock moves.
pub proof fn law_first_firing_comes_when_its_span_has_passed(
    track: bool,
    schedule: Schedule,
    post: State,
    later: State,
)
    requires
        schedule.all_spans(|span: nat| is_duration(span)),
        !(schedule is Never),
        model::reaches(None, open_steps(track, schedule), post),
        post.idles(later),
    ensures
        later->0.countdown.due() <==> later->0.countdown.elapsed() >= time::or_nanosecond(
            schedule.fire_time(0)->0,
        ),
{
    law_new_timer_follows_its_schedule(track, schedule, post);
    let program = told(schedule)->0;
    let elapsed = later->0.countdown.elapsed();
    crate::countdown::law_firings_have_come_due(program, elapsed, 0);
    if let Schedule::Interval(period) = schedule {
        assert((0 + 1) * period == period) by (nonlinear_arith);
    }
    if let Schedule::IntervalAt(_, period) = schedule {
        assert(0 * period == 0) by (nonlinear_arith);
    }
}

/// A timer that was made never to fire never does.
pub proof fn law_never_never_fires(track: bool, post: State, later: State)
    requires
        model::reaches(None, open_steps(track, Schedule::Never), post),
        post.idles(later),
    ensures
        !later->0.countdown.due(),
{
    law_new_timer_follows_its_schedule(track, Schedule::Never, post);
}

pub proof fn lemma_clearing(pre: State, rest: Seq<Step<Op>>, post: State) -> (cleared: State)
    requires
        pre is Some,
        model::reaches(pre, Linux::clear_steps() + rest, post),
    ensures
        cleared is Some,
        cleared->0.countdown.program is None,
        cleared->0.countdown.noticed == 0,
        cleared == Some(TimerFd { countdown: cleared->0.countdown, ..pre->0 }),
        model::reaches(cleared, rest, post),
{
    let steps = Linux::clear_steps() + rest;
    let (_, disarmed) = model::lemma_first_step(pre, steps, post);
    let (idle, cleared) = model::lemma_first_step(disarmed, steps.drop_first(), post);
    assert(steps.drop_first()[0] == Linux::clear_steps()[1]);
    assert(steps.drop_first().drop_first() =~= rest);
    cleared
}

/// A timer that has been cleared never fires, and no firing of it is left to be taken note of.
pub proof fn law_cleared_timer_never_fires(pre: State, post: State, later: State)
    requires
        pre is Some,
        model::reaches(pre, Linux::clear_steps(), post),
        post.idles(later),
    ensures
        post is Some,
        !later->0.countdown.due(),
{
    assert(Linux::clear_steps() =~= Linux::clear_steps() + Seq::empty());
    let cleared = lemma_clearing(pre, Seq::empty(), post);
}

/// A timer that has been reset is the same timer on the same clock; it has just been told to fire
/// by the new schedule, and no firing from before the reset is left to be taken note of.
pub proof fn law_reset_timer_follows_its_new_schedule(
    track: bool,
    schedule: Schedule,
    pre: State,
    post: State,
)
    requires
        pre is Some,
        schedule.all_spans(|span: nat| is_duration(span)),
        !(schedule is Never),
        model::reaches(pre, reset_steps(track, schedule), post),
    ensures
        post is Some,
        post == Some(TimerFd { countdown: post->0.countdown.set(told(schedule)), ..pre->0 }),
{
    assert(reset_steps(track, schedule) =~= Linux::clear_steps() + arm_steps(track, schedule));
    let cleared = lemma_clearing(pre, arm_steps(track, schedule), post);
    let (idle, armed) = model::lemma_first_step(cleared, arm_steps(track, schedule), post);
    lemma_arming(track, schedule, idle, armed);
    assert(arm_steps(track, schedule).drop_first().len() == 0);
}

/// A sleep that has been reset ends when the new duration has passed since the reset, and not
/// before.
pub proof fn law_reset_sleep_ends_when_its_duration_has_passed(
    track: bool,
    nanos: nat,
    pre: State,
    post: State,
    later: State,
)
    requires
        pre is Some,
        is_duration(nanos),
        model::reaches(pre, reset_steps(track, Schedule::OneShot(nanos)), post),
        post.idles(later),
    ensures
        later->0.countdown.due() <==> later->0.countdown.now >= post->0.countdown.now
            + time::or_nanosecond(nanos),
{
    law_reset_timer_follows_its_new_schedule(track, Schedule::OneShot(nanos), pre, post);
}

/// To reset a timer is as good as to make a new one, as far as its schedule goes.
pub proof fn law_reset_is_equivalent_to_a_new_timer(
    track: bool,
    schedule: Schedule,
    pre: State,
    reset: State,
    new: State,
)
    requires
        pre is Some,
        schedule.all_spans(|span: nat| is_duration(span)),
        !(schedule is Never),
        model::reaches(pre, reset_steps(track, schedule), reset),
        model::reaches(None, open_steps(track, schedule), new),
    ensures
        reset->0.countdown.program == new->0.countdown.program,
        reset->0.countdown.noticed == new->0.countdown.noticed,
{
    law_reset_timer_follows_its_new_schedule(track, schedule, pre, reset);
    law_new_timer_follows_its_schedule(track, schedule, new);
}

/// A reset makes no timer and registers none: it only uses what the timer holds.
pub proof fn law_reset_reuses_resources(track: bool, schedule: Schedule, i: int)
    requires
        0 <= i < reset_steps(track, schedule).len(),
    ensures
        reset_steps(track, schedule)[i] matches Step::Call { op, .. } && !(op is NewTimer) && !(
        op is Register),
{
}

/// A timer that tracks sleep counts the time that the system spends asleep, and one that ignores
/// sleep does not.
pub proof fn law_clock_tracks_sleep_if_asked(track: bool, awake: nat, asleep: nat)
    ensures
        ClockId::tracking(track).advance(awake, asleep) == if track {
            awake + asleep
        } else {
            awake
        },
{
}

/// How a read of the expirations can end.
pub open spec fn reads<E>(pre: State, reply: Result<(), Failure<E>>, post: State) -> bool {
    match reply {
        Ok(_) => pre.succeeds(Op::Wait, post),
        Err(failure) => pre.fails(Op::Wait, failure.kind, post),
    }
}

/// An attempt finds a firing only if there is one that nobody has taken note of, and leaves none
/// behind; it finds none only if there is none, and leaves the timer as it is.
pub proof fn law_attempt_tells_the_truth<E>(pre: State, reply: Result<(), Failure<E>>, post: State)
    requires
        pre is Some,
        reads(pre, reply, post),
    ensures
        linux::attempt_of(reply).honest(pre->0.countdown.due()),
        reply matches Err(failure) ==> linux::attempt_of(reply) == if failure.kind is WouldBlock {
            Attempt::WouldBlock
        } else {
            Attempt::Failed(failure.error)
        },
        reply is Ok ==> !post->0.countdown.due(),
        reply is Err ==> post == pre,
{
}

/// Whether `attempt` can be what is made of a read in the state `pre`.
pub open spec fn attempts<E>(pre: State, attempt: Attempt<E>) -> bool {
    &&& pre is Some
    &&& exists|reply: Result<(), Failure<E>>, post: State| #[trigger]
        reads(pre, reply, post) && attempt == linux::attempt_of(reply)
}

proof fn lemma_attempts_are_honest<E>(states: Seq<State>, rounds: Seq<Round<E>>)
    requires
        states.len() == rounds.len(),
        forall|i: int|
            0 <= i < rounds.len() && (#[trigger] rounds[i]).readiness is Readable ==> attempts(
                states[i],
                rounds[i].attempt,
            ),
    ensures
        forall|i: int|
            0 <= i < rounds.len() ==> (#[trigger] rounds[i]).honest(
                states[i]->0.countdown.due(),
            ),
{
}

/// A poll by tokio, whose attempts are made in the given states, finds that the timer has fired
/// only if the timer was due in one of them, and had not been due in any before.
pub proof fn law_tokio_poll_is_ready_only_if_due<E>(states: Seq<State>, rounds: Seq<Round<E>>)
    requires
        states.len() == rounds.len(),
        forall|i: int|
            0 <= i < rounds.len() && (#[trigger] rounds[i]).readiness is Readable ==> attempts(
                states[i],
                rounds[i].attempt,
            ),
        poll::answer_of(rounds) == Some(Poll::Ready(Ok::<(), E>(()))),
    ensures
        exists|i: int|
            0 <= i < states.len() && (#[trigger] states[i])->0.countdown.due() && forall|j: int|
                0 <= j < i ==> !(#[trigger] states[j])->0.countdown.due(),
{
    lemma_attempts_are_honest(states, rounds);
    let due = Seq::new(states.len(), |i: int| states[i]->0.countdown.due());
    poll::law_ready_means_due(rounds, due);
    let i = choose|i: int|
        0 <= i < due.len() && #[trigger] due[i] && forall|j: int|
            0 <= j < i ==> !#[trigger] due[j];
    assert(states[i]->0.countdown.due());
    assert forall|j: int| 0 <= j < i implies !(#[trigger] states[j])->0.countdown.due() by {
        assert(!due[j]);
    }
}

/// A poll by smol, whose attempts are made in the given states, finds that the timer has fired only
/// if the timer was due in one of them.
pub proof fn law_smol_poll_is_ready_only_if_due<E>(
    start: State,
    first: Attempt<E>,
    states: Seq<State>,
    rounds: Seq<Round<E>>,
)
    requires
        attempts(start, first),
        states.len() == rounds.len(),
        forall|i: int|
            0 <= i < rounds.len() && (#[trigger] rounds[i]).readiness is Readable ==> attempts(
                states[i],
                rounds[i].attempt,
            ),
        smol::poll_answer(first, rounds) == Some(Poll::Ready(Ok::<(), E>(()))),
    ensures
        start->0.countdown.due() || exists|i: int|
            0 <= i < states.len() && (#[trigger] states[i])->0.countdown.due(),
{
    lemma_attempts_are_honest(states, rounds);
    let due = Seq::new(states.len(), |i: int| states[i]->0.countdown.due());
    smol::law_ready_means_due(first, start->0.countdown.due(), rounds, due);
    if !start->0.countdown.due() {
        let i = choose|i: int| 0 <= i < due.len() && #[trigger] due[i];
        assert(states[i]->0.countdown.due());
    }
}

} // verus!
