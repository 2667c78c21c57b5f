//! What the calls of this crate do to a waitable timer, and what follows from it.
//!
//! The effects of the calls are those that the documentation of `SetWaitableTimer` and
//! `CancelWaitableTimer` describes.

use vstd::prelude::*;

use crate::backend;
use crate::backend::{Backend, DelayedStart};
use crate::countdown::Countdown;
use crate::model;
use crate::model::System;
use crate::procedure;
use crate::procedure::{Error, ErrorKind, Failure, Outcome, Step};
use crate::schedule::{Program, Schedule};
use crate::windows;
use crate::windows::{Op, TimerAccess, TimerSetting, Windows};

verus! {

/// The state of a waitable timer.
pub struct WaitableTimer {
    /// How it was set last.
    pub countdown: Countdown,
    /// Whether it was made with high resolution.
    pub high_resolution: bool,
    /// The rights with which it was made.
    pub access: TimerAccess,
    /// Whether there is a packet to report its firings.
    pub packet: bool,
    /// How often its shared state has been cleared.
    pub generation: nat,
    /// The generation in which the packet has been associated with the completion port, if it is.
    pub association: Option<nat>,
}

impl WaitableTimer {
    /// Whether the packet has been associated since the shared state was cleared, so that firings
    /// are reported and count.
    pub open spec fn watched(self) -> bool {
        self.association == Some(self.generation)
    }

    /// Whether the timer has a packet, and the rights that its use needs.
    pub open spec fn usable(self) -> bool {
        self.packet && self.access.modify_state && self.access.synchronize
    }

    /// By how much the time that the timer follows advances while the system is awake for a span of
    /// `awake` and asleep for a span of `asleep`.
    pub open spec fn advance(self, awake: nat, asleep: nat) -> nat {
        awake + asleep
    }

    /// Whether the packet can be associated with the completion port, where the timer is or is not
    /// signaled by then, as `signaled` says. That it is signaled counts as noticed.
    pub open spec fn associates(self, signaled: bool, post: WaitableTimer) -> bool {
        &&& self.packet && self.access.synchronize
        &&& self.association is None
        &&& signaled == self.countdown.due()
        &&& post == (WaitableTimer {
            countdown: if signaled {
                self.countdown.notice()
            } else {
                self.countdown
            },
            association: Some(self.generation),
            ..self
        })
    }
}

impl TimerSetting {
    /// Whether the time is relative, and the period is one.
    pub open spec fn relative(self) -> bool {
        self.due_time <= 0 && self.period >= 0
    }

    /// What the timer is told by a setting that is relative.
    pub open spec fn program(self) -> Program {
        Program { first: (-self.due_time * 100) as nat, period: (self.period * 1_000_000) as nat }
    }
}

/// The timer of a program, once it has been made.
pub type State = Option<WaitableTimer>;

impl System for State {
    type Op = Op;

    open spec fn idles(self, post: State) -> bool {
        match self {
            None => post is None,
            Some(before) => {
                &&& post is Some
                &&& before.countdown.passes(post->0.countdown)
                &&& post == Some(WaitableTimer { countdown: post->0.countdown, ..before })
            },
        }
    }

    /// A program makes one timer, and one packet for it.
    open spec fn succeeds(self, op: Op, post: State) -> bool {
        match op {
            Op::CreateTimer { high_resolution, access } => {
                &&& self is None
                &&& post is Some
                &&& post == Some(
                    WaitableTimer {
                        countdown: Countdown::idle(post->0.countdown.now),
                        high_resolution,
                        access,
                        packet: false,
                        generation: 0,
                        association: None,
                    },
                )
            },
            Op::CreatePacket => {
                &&& self is Some && !self->0.packet
                &&& post == Some(WaitableTimer { packet: true, ..self->0 })
            },
            Op::AssociatePacket => {
                &&& self is Some && post is Some
                &&& exists|signaled: bool| #[trigger] self->0.associates(signaled, post->0)
            },
            Op::SetTimer(setting) => {
                &&& self is Some && post is Some
                &&& self->0.access.modify_state
                &&& setting.relative() ==> post->0.countdown == self->0.countdown.set(
                    Some(setting.program()),
                )
                &&& post == Some(WaitableTimer { countdown: post->0.countdown, ..self->0 })
            },
            Op::CancelTimer => {
                &&& self is Some
                &&& self->0.access.modify_state
                &&& post == Some(
                    WaitableTimer { countdown: self->0.countdown.set(None), ..self->0 },
                )
            },
            Op::ClearState => {
                &&& self is Some
                &&& post == Some(WaitableTimer { generation: self->0.generation + 1, ..self->0 })
            },
            Op::CancelPacket => {
                &&& self is Some
                &&& post == Some(WaitableTimer { association: None, ..self->0 })
            },
        }
    }

    /// A call that fails leaves the timer as it is.
    open spec fn fails(self, op: Op, kind: ErrorKind, post: State) -> bool {
        post == self
    }
}

/// The steps that arm a timer for `schedule`.
pub open spec fn arm_steps(track: bool, schedule: Schedule) -> Seq<Step<Op>> {
    match schedule {
        Schedule::Never => Seq::empty(),
        Schedule::OneShot(after) => Windows::one_shot_steps(track, after),
        Schedule::Interval(period) => Windows::interval_steps(track, period),
        Schedule::IntervalAt(start, period) => Windows::interval_at_steps(track, start, period),
    }
}

/// The steps that make a timer and arm it for `schedule`.
pub open spec fn open_steps(track: bool, schedule: Schedule) -> Seq<Step<Op>> {
    backend::open_steps::<Windows>(track, arm_steps(track, schedule))
}

/// The steps that clear a timer and arm it anew for `schedule`.
pub open spec fn reset_steps(track: bool, schedule: Schedule) -> Seq<Step<Op>> {
    backend::reset_steps::<Windows>(arm_steps(track, schedule))
}

/// `nanos`, cut to whole units of 100 nanoseconds.
pub open spec fn cut(nanos: nat) -> nat {
    (nanos - nanos % 100) as nat
}

/// `nanos`, cut to whole milliseconds, at least one.
pub open spec fn cut_period(nanos: nat) -> nat {
    windows::period_millis(nanos) * 1_000_000
}

/// What the timer is told if it is to fire by `schedule`: the first firing is cut to a unit, and
/// the period to a millisecond, but not to nothing.
pub open spec fn told(schedule: Schedule) -> Option<Program> {
    match schedule {
        Schedule::Never => None,
        Schedule::OneShot(after) => Some(Program { first: cut(after), period: 0 }),
        Schedule::Interval(period) => Some(
            Program { first: cut(period), period: cut_period(period) },
        ),
        Schedule::IntervalAt(start, period) => Some(
            Program { first: cut(start), period: cut_period(period) },
        ),
    }
}

proof fn lemma_arming(track: bool, schedule: Schedule, pre: State, post: State)
    requires
        !(schedule is Never),
        model::takes(pre, arm_steps(track, schedule)[0], post),
    ensures
        pre is Some,
        post == Some(
            WaitableTimer { countdown: pre->0.countdown.set(told(schedule)), ..pre->0 },
        ),
{
}

/// A timer that has been made is watched by the completion port, is told to fire by the schedule
/// that was asked for, as exactly as the system can represent it, and none of its firings has been
/// taken note of.
pub proof fn law_new_timer_follows_its_schedule(track: bool, schedule: Schedule, post: State)
    requires
        model::reaches(None, open_steps(track, schedule), post),
    ensures
        post is Some,
        post->0.watched(),
        post->0.high_resolution,
        post->0.usable(),
        post->0.countdown.program == told(schedule),
        post->0.countdown.noticed == 0,
        post->0.countdown.set_at <= post->0.countdown.now,
{
    let steps = open_steps(track, schedule);
    let (_, made) = model::lemma_first_step(None::<WaitableTimer>, steps, post);
    let rest = steps.drop_first();
    assert(rest[0] == Windows::create_steps(track)[1]);
    let (_, packed) = model::lemma_first_step(made, rest, post);
    let rest = rest.drop_first();
    assert(rest[0] == Windows::create_steps(track)[2]);
    let (_, watched) = model::lemma_first_step(packed, rest, post);
    let rest = rest.drop_first();
    assert(rest =~= arm_steps(track, schedule));
    if !(schedule is Never) {
        let (idle, armed) = model::lemma_first_step(watched, rest, post);
        lemma_arming(track, schedule, idle, armed);
        assert(rest.drop_first().len() == 0);
    }
}

/// A sleep ends when its duration, cut to a unit, has passed, and not before.
pub proof fn law_sleep_ends_when_its_duration_has_passed(
    track: bool,
    nanos: nat,
    post: State,
    later: State,
)
    requires
        model::reaches(None, open_steps(track, Schedule::OneShot(nanos)), post),
        post.idles(later),
    ensures
        later->0.countdown.due() <==> later->0.countdown.elapsed() >= cut(nanos),
{
    law_new_timer_follows_its_schedule(track, Schedule::OneShot(nanos), post);
}

/// A timer fires for the first time when the first span of its schedule, cut to a unit, has passed,
/// and not before. For an interval that is its period, or the delay until its start.
pub proof fn law_first_firing_comes_when_its_span_has_passed(
    track: bool,
    schedule: Schedule,
    post: State,
    later: State,
)
    requires
        !(schedule is Never),
        model::reaches(None, open_steps(track, schedule), post),
        post.idles(later),
    ensures
        later->0.countdown.due() <==> later->0.countdown.elapsed() >= cut(
            schedule.fire_time(0)->0,
        ),
{
    law_new_timer_follows_its_schedule(track, schedule, post);
    let program = told(schedule)->0;
    crate::countdown::law_firings_have_come_due(program, later->0.countdown.elapsed(), 0);
    if let Schedule::Interval(period) = schedule {
        assert((0 + 1) * period == period) by (nonlinear_arith);
    }
    if let Schedule::IntervalAt(_, period) = schedule {
        assert(0 * period == 0) by (nonlinear_arith);
    }
}

/// A timer that was made never to fire never does.
pub proof fn law_never_never_fires(track: bool, post: State, later: State)
    requires
        model::reaches(None, open_steps(track, Schedule::Never), post),
        post.idles(later),
    ensures
        !later->0.countdown.due(),
{
    law_new_timer_follows_its_schedule(track, Schedule::Never, post);
}

/// A timer that has been reset is the same timer, with the same packet. It is watched, and has been
/// told in the course of the reset to fire by the new schedule, as exactly as the system can
/// represent it.
pub proof fn law_reset_timer_follows_its_new_schedule(
    track: bool,
    schedule: Schedule,
    pre: State,
    post: State,
)
    requires
        pre is Some,
        !(schedule is Never),
        model::reaches(pre, reset_steps(track, schedule), post),
    ensures
        post is Some,
        post->0.watched(),
        post->0.generation > pre->0.generation,
        post->0.packet == pre->0.packet,
        post->0.access == pre->0.access,
        post->0.high_resolution == pre->0.high_resolution,
        post->0.countdown.program == told(schedule),
        pre->0.countdown.now <= post->0.countdown.set_at <= post->0.countdown.now,
        post->0.countdown.wf(),
{
    let steps = reset_steps(track, schedule);
    let arm = arm_steps(track, schedule);
    let (_, canceled) = model::lemma_first_step(pre, steps, post);
    let rest = steps.drop_first();
    assert(rest[0] == Windows::clear_steps()[1]);
    let (_, cleared) = model::lemma_first_step(canceled, rest, post);
    let rest = rest.drop_first();
    assert(rest[0] == Windows::clear_steps()[2]);
    let (_, unwatched) = model::lemma_first_step(cleared, rest, post);
    let rest = rest.drop_first();
    assert(rest =~= arm + Windows::watch_again_steps());
    assert(rest[0] == arm[0]);
    let (idle, armed) = model::lemma_first_step(unwatched, rest, post);
    lemma_arming(track, schedule, idle, armed);
    let rest = rest.drop_first();
    assert(rest =~= Windows::watch_again_steps());
    let (waiting, watched) = model::lemma_first_step(armed, rest, post);
    assert(rest.drop_first().len() == 0);
}

/// A sleep that has been reset has fired exactly if the new duration, cut to a unit, has passed
/// since it was set in the course of the reset: not before the duration has passed since the reset
/// began, and at the latest when it has passed since the reset was done.
pub proof fn law_reset_sleep_ends_when_its_duration_has_passed(
    track: bool,
    nanos: nat,
    pre: State,
    post: State,
    later: State,
)
    requires
        pre is Some,
        model::reaches(pre, reset_steps(track, Schedule::OneShot(nanos)), post),
        post.idles(later),
    ensures
        later->0.countdown.firings() > 0 <==> later->0.countdown.elapsed() >= cut(nanos),
        pre->0.countdown.now <= later->0.countdown.set_at <= post->0.countdown.now,
        later->0.countdown.firings() > 0 ==> later->0.countdown.now >= pre->0.countdown.now + cut(
            nanos,
        ),
        later->0.countdown.now >= post->0.countdown.now + cut(nanos)
            ==> later->0.countdown.firings() > 0,
{
    law_reset_timer_follows_its_new_schedule(track, Schedule::OneShot(nanos), pre, post);
}

/// To reset a timer is as good as to make a new one, as far as its schedule goes.
pub proof fn law_reset_is_equivalent_to_a_new_timer(
    track: bool,
    schedule: Schedule,
    pre: State,
    reset: State,
    new: State,
)
    requires
        pre is Some,
        !(schedule is Never),
        model::reaches(pre, reset_steps(track, schedule), reset),
        model::reaches(None, open_steps(track, schedule), new),
    ensures
        reset->0.countdown.program == new->0.countdown.program,
        reset->0.watched() == new->0.watched(),
{
    law_reset_timer_follows_its_new_schedule(track, schedule, pre, reset);
    law_new_timer_follows_its_schedule(track, schedule, new);
}

/// A timer that has been cleared is not heard of any more: whether or not it and its packet could
/// be canceled, its packet has not been associated since.
pub proof fn law_cleared_timer_is_not_heard_of(pre: State, post: State)
    requires
        pre is Some,
        pre->0.association is Some ==> pre->0.association->0 <= pre->0.generation,
        model::reaches(pre, Windows::clear_steps(), post),
    ensures
        post is Some,
        !post->0.watched(),
        post->0.generation == pre->0.generation + 1,
        post->0.association is Some ==> post->0.association->0 <= post->0.generation,
{
    let steps = Windows::clear_steps();
    let (_, canceled) = model::lemma_first_step(pre, steps, post);
    let (_, cleared) = model::lemma_first_step(canceled, steps.drop_first(), post);
    let (_, unwatched) = model::lemma_first_step(cleared, steps.drop_first().drop_first(), post);
    assert(steps.drop_first().drop_first().drop_first().len() == 0);
}

/// A timer that could be canceled never fires.
pub proof fn law_canceled_timer_never_fires(pre: State, post: State, later: State)
    requires
        pre.succeeds(Op::CancelTimer, post),
        post.idles(later),
    ensures
        !later->0.countdown.due(),
{
}

/// A reset makes no timer and no packet: it only uses what the timer holds.
pub proof fn law_reset_reuses_resources(track: bool, schedule: Schedule, i: int)
    requires
        0 <= i < reset_steps(track, schedule).len(),
    ensures
        reset_steps(track, schedule)[i] matches Step::Call { op, .. } ==> !(op is CreateTimer) && !(
        op is CreatePacket),
{
}

/// Whether sleep is to be tracked makes no difference to the calls.
pub proof fn law_calls_do_not_depend_on_tracking(track: bool, schedule: Schedule)
    ensures
        open_steps(track, schedule) == open_steps(true, schedule),
        reset_steps(track, schedule) == reset_steps(true, schedule),
{
}

/// A timer that has been made counts the time that the system spends asleep, whether that was asked
/// for or not.
pub proof fn law_sleep_is_tracked_in_any_case(
    track: bool,
    schedule: Schedule,
    post: State,
    awake: nat,
    asleep: nat,
)
    requires
        model::reaches(None, open_steps(track, schedule), post),
    ensures
        post is Some,
        post->0.advance(awake, asleep) == awake + asleep,
{
    law_new_timer_follows_its_schedule(track, schedule, post);
}

/// A timer is told to fire less than 100 nanoseconds before the time that was asked for, and not
/// after it.
pub proof fn law_first_firing_is_early_by_less_than_a_unit(nanos: nat)
    ensures
        cut(nanos) <= nanos < cut(nanos) + 100,
{
}

/// An interval repeats, whatever its period: less than a millisecond earlier than it was asked to,
/// or each millisecond.
pub proof fn law_interval_repeats(schedule: Schedule, n: nat)
    requires
        schedule is Interval || schedule is IntervalAt,
    ensures
        told(schedule)->0.fire_time(n) is Some,
        told(schedule)->0.period >= 1_000_000,
        schedule matches Schedule::Interval(period) ==> period < told(schedule)->0.period
            + 1_000_000,
        schedule matches Schedule::IntervalAt(_, period) ==> period < told(schedule)->0.period
            + 1_000_000,
{
}

/// Whole milliseconds that are not zero are represented exactly.
pub proof fn law_whole_milliseconds_are_exact(schedule: Schedule)
    requires
        schedule.regular(),
        schedule.all_spans(|span: nat| span % 1_000_000 == 0),
    ensures
        told(schedule) == schedule.program(),
{
}

/// A timer cannot be armed for a span that the system cannot represent. That is reported if no
/// earlier call fails: once the timer has been made, and on a reset once it has been cleared.
pub proof fn law_long_span_is_rejected<E>(
    track: bool,
    schedule: Schedule,
    replies: Seq<Result<(), Failure<E>>>,
)
    requires
        match schedule {
            Schedule::Never => false,
            Schedule::OneShot(after) => after / 100 > i64::MAX,
            Schedule::Interval(period) => period / 100 > i64::MAX || period / 1_000_000 > i32::MAX,
            Schedule::IntervalAt(start, period) => start / 100 > i64::MAX || period / 1_000_000
                > i32::MAX,
        },
        replies.len() >= 3,
        replies[0] is Ok,
        replies[1] is Ok,
        replies[2] is Ok,
    ensures
        procedure::outcome(open_steps(track, schedule), (), replies) == Outcome::<(), E>::Failed(
            Error::InvalidInput,
        ),
        procedure::outcome(reset_steps(track, schedule), (), replies) == Outcome::<(), E>::Failed(
            Error::InvalidInput,
        ),
{
    assert(procedure::accepted(open_steps(track, schedule), replies, 3));
    procedure::law_rejection_is_reported(open_steps(track, schedule), (), replies, 3);
    assert(procedure::accepted(reset_steps(track, schedule), replies, 3));
    procedure::law_rejection_is_reported(reset_steps(track, schedule), (), replies, 3);
}

} // verus!
