//! What the calls of this crate do to a kqueue, and what follows from it.
//!
//! The effects of the calls are those that `kqueue(2)` describes.

use vstd::prelude::*;

use crate::apple;
use crate::apple::{Apple, KEvent, KeventCall, Op, KQUEUE_EVFILT_TIMER_ID};
use crate::backend;
use crate::backend::Backend;
use crate::countdown::Countdown;
use crate::model;
use crate::model::System;
use crate::poll;
use crate::poll::{Attempt, Poll, Round};
use crate::procedure;
use crate::procedure::{Error, ErrorKind, Failure, Outcome, Step};
use crate::schedule::{Program, Schedule};
use crate::smol;
use crate::time;

verus! {

/// A timer in a kqueue.
pub struct Timer {
    /// Whether it follows the continuous time, which goes on while the system sleeps.
    pub continuous: bool,
    /// What it was told when it was added, and how many of its events have been delivered.
    pub countdown: Countdown,
}

impl Timer {
    /// A timer that has just been added, at the time `now`.
    pub open spec fn added(continuous: bool, program: Program, now: nat) -> Timer {
        Timer { continuous, countdown: Countdown::idle(now).set(Some(program)) }
    }

    /// By how much the time that the timer follows advances while the system is awake for a span of
    /// `awake` and asleep for a span of `asleep`.
    pub open spec fn advance(self, awake: nat, asleep: nat) -> nat {
        if self.continuous {
            awake + asleep
        } else {
            awake
        }
    }
}

/// The state of a kqueue.
pub struct Kqueue {
    /// The timers that were added and have not been deleted, by their identifiers.
    pub timers: Map<usize, Timer>,
    /// Whether the kqueue is closed when another program is executed.
    pub cloexec: bool,
    /// Whether the reactor watches it.
    pub watched: bool,
}

impl Kqueue {
    /// Whether there is an event to be delivered.
    pub open spec fn due(self) -> bool {
        exists|id: usize|
            self.timers.contains_key(id) && (#[trigger] self.timers[id]).countdown.due()
    }

    /// Whether there is no timer.
    pub open spec fn is_idle(self) -> bool {
        self.timers =~= Map::empty()
    }

    /// Whether there is one timer and no other, and it is `timer`.
    pub open spec fn has_only(self, timer: Timer) -> bool {
        exists|id: usize| self.timers =~= #[trigger] Map::empty().insert(id, timer)
    }

    /// The only timer, if there is one and no other.
    pub open spec fn sole(self) -> Timer {
        choose|timer: Timer| self.has_only(timer)
    }

    /// Whether there is a timer that this crate has added.
    pub open spec fn has_own(self) -> bool {
        self.timers.contains_key(KQUEUE_EVFILT_TIMER_ID)
    }

    /// The timer that this crate has added.
    pub open spec fn own(self) -> Timer {
        self.timers[KQUEUE_EVFILT_TIMER_ID]
    }

    /// Whether there is no timer but the one that this crate adds and deletes.
    pub open spec fn ours(self) -> bool {
        forall|id: usize| #[trigger] self.timers.contains_key(id) ==> id == KQUEUE_EVFILT_TIMER_ID
    }

    /// Whether a call with room for one event can deliver `num_events`, and leave the kqueue as
    /// `post`: one if there is one, which stands for all firings of its timer so far, and none if
    /// there is none.
    pub open spec fn delivers(self, num_events: usize, post: Kqueue) -> bool {
        if self.due() {
            &&& num_events == 1
            &&& exists|id: usize|
                self.timers.contains_key(id) && (#[trigger] self.timers[id]).countdown.due() && post
                    == (Kqueue {
                    timers: self.timers.insert(
                        id,
                        Timer {
                            countdown: self.timers[id].countdown.notice(),
                            ..self.timers[id]
                        },
                    ),
                    ..self
                })
        } else {
            &&& num_events == 0
            &&& post == self
        }
    }

    /// Whether `event` can be made to change the timers to `post`. A deletion deletes the timer of
    /// its identifier; that there is none can only be reported if there is room for it. A timer
    /// that is added replaces the one of its identifier. Its time is in nanoseconds if that is
    /// said, and in milliseconds if not.
    pub open spec fn changes(
        self,
        event: KEvent,
        capacity: usize,
        post: Map<usize, Timer>,
    ) -> bool {
        if event.flags.delete {
            &&& self.timers.contains_key(event.ident) || capacity > 0
            &&& post == self.timers.remove(event.ident)
        } else {
            let unit: nat = if event.fflags.nseconds {
                1
            } else {
                1_000_000
            };
            let program = Program {
                first: event.data as nat * unit,
                period: if event.flags.oneshot {
                    0
                } else {
                    event.data as nat * unit
                },
            };
            &&& event.flags.add && event.flags.enable
            &&& event.data >= 0
            &&& post == self.timers.insert(
                event.ident,
                Timer::added(
                    event.fflags.mach_continuous_time,
                    program,
                    post[event.ident].countdown.now,
                ),
            )
        }
    }

    /// Whether the change that `call` asks for, if any, can lead to `post`.
    pub open spec fn is_changed(self, call: KeventCall, post: Kqueue) -> bool {
        match call.change {
            Some(event) => {
                &&& self.changes(event, call.capacity, post.timers)
                &&& post == (Kqueue { timers: post.timers, ..self })
            },
            None => post == self,
        }
    }

    /// Whether a call of `kevent` can succeed and lead to `post`. Where there is room for an event,
    /// one that is there after the change is delivered to that call and to no other.
    pub open spec fn is_called(self, call: KeventCall, post: Kqueue) -> bool {
        exists|changed: Kqueue|
            {
                &&& #[trigger] self.is_changed(call, changed)
                &&& if call.capacity == 0 {
                    post == changed
                } else {
                    exists|num_events: usize| #[trigger] changed.delivers(num_events, post)
                }
            }
    }
}

/// The kqueue of a program, once it has been made.
pub type State = Option<Kqueue>;

impl System for State {
    type Op = Op;

    open spec fn idles(self, post: State) -> bool {
        match self {
            None => post is None,
            Some(before) => {
                &&& post is Some
                &&& post == Some(Kqueue { timers: post->0.timers, ..before })
                &&& post->0.timers.dom() =~= before.timers.dom()
                &&& forall|id: usize| #[trigger]
                    before.timers.contains_key(id) ==> {
                        &&& before.timers[id].countdown.passes(post->0.timers[id].countdown)
                        &&& post->0.timers[id].continuous == before.timers[id].continuous
                    }
            },
        }
    }

    /// A program makes one kqueue, and has the reactor watch it once.
    open spec fn succeeds(self, op: Op, post: State) -> bool {
        match op {
            Op::NewKqueue => {
                &&& self is None
                &&& post == Some(
                    Kqueue { timers: Map::empty(), cloexec: false, watched: false },
                )
            },
            Op::SetCloexec => {
                &&& self is Some
                &&& post == Some(Kqueue { cloexec: true, ..self->0 })
            },
            Op::Kevent(call) => self is Some && post is Some && self->0.is_called(call, post->0),
            Op::Register => {
                &&& self is Some && !self->0.watched
                &&& post == Some(Kqueue { watched: true, ..self->0 })
            },
        }
    }

    /// A call that fails leaves the kqueue as it is.
    open spec fn fails(self, op: Op, kind: ErrorKind, post: State) -> bool {
        post == self
    }
}

proof fn lemma_sole(kqueue: Kqueue, id: usize, timer: Timer)
    requires
        kqueue.timers =~= Map::empty().insert(id, timer),
    ensures
        kqueue.has_only(timer),
        kqueue.sole() == timer,
        kqueue.due() == timer.countdown.due(),
{
    assert(kqueue.has_only(timer));
    let sole = kqueue.sole();
    let other = choose|other: usize| kqueue.timers =~= #[trigger] Map::empty().insert(other, sole);
    assert(kqueue.timers.contains_key(id) && kqueue.timers.contains_key(other));
    assert(kqueue.timers[id] == timer && kqueue.timers[other] == sole);
    assert(other == id);
}

/// The timer of a kqueue that has only one, as time passes.
proof fn lemma_sole_passes(pre: Kqueue, post: Kqueue)
    requires
        pre.has_only(pre.sole()),
        Some(pre).idles(Some(post)),
    ensures
        post.has_only(post.sole()),
        pre.sole().countdown.passes(post.sole().countdown),
        post.sole().continuous == pre.sole().continuous,
        post.due() == post.sole().countdown.due(),
{
    let timer = pre.sole();
    let id = choose|id: usize| pre.timers =~= #[trigger] Map::empty().insert(id, timer);
    assert(pre.timers.contains_key(id));
    assert(post.timers.contains_key(id));
    assert(post.timers =~= Map::empty().insert(id, post.timers[id]));
    lemma_sole(post, id, post.timers[id]);
}

/// The steps that arm a timer for `schedule`, which is no interval with a delayed start.
pub open spec fn arm_steps(track: bool, schedule: Schedule) -> Seq<Step<Op>>
    recommends
        !(schedule is IntervalAt),
{
    match schedule {
        Schedule::OneShot(after) => Apple::one_shot_steps(track, after),
        Schedule::Interval(period) => Apple::interval_steps(track, period),
        _ => Seq::empty(),
    }
}

/// The steps that make a timer and arm it for `schedule`.
pub open spec fn open_steps(track: bool, schedule: Schedule) -> Seq<Step<Op>> {
    backend::open_steps::<Apple>(track, arm_steps(track, schedule))
}

/// The steps that clear a timer and arm it anew for `schedule`.
pub open spec fn reset_steps(track: bool, schedule: Schedule) -> Seq<Step<Op>> {
    backend::reset_steps::<Apple>(arm_steps(track, schedule))
}

/// What the timer is told if it is to fire by `schedule`, which is no interval with a delayed
/// start. A period of zero is told as one nanosecond.
pub open spec fn told(schedule: Schedule) -> Option<Program>
    recommends
        !(schedule is IntervalAt),
{
    match schedule {
        Schedule::OneShot(after) => Some(Program { first: after, period: 0 }),
        Schedule::Interval(period) => Some(
            Program { first: time::or_nanosecond(period), period: time::or_nanosecond(period) },
        ),
        _ => None,
    }
}

/// Where no span is zero, the timer is told exactly what was asked for.
pub proof fn law_schedule_is_told_exactly(schedule: Schedule)
    requires
        !(schedule is IntervalAt),
        schedule.regular(),
    ensures
        told(schedule) == schedule.program(),
{
}

/// An interval repeats, whatever its period.
pub proof fn law_interval_repeats(period: nat, n: nat)
    ensures
        told(Schedule::Interval(period))->0.fire_time(n) is Some,
{
}

/// Whether there is one timer, which is what was asked for and of which no event has been
/// delivered, or none if none was asked for.
pub open spec fn is_requested(kqueue: Kqueue, track: bool, schedule: Schedule) -> bool {
    match told(schedule) {
        Some(program) => {
            let timer = kqueue.sole();
            &&& kqueue.has_only(timer)
            &&& timer.continuous == track
            &&& timer.countdown.program == Some(program)
            &&& timer.countdown.noticed == 0
            &&& timer.countdown.set_at <= timer.countdown.now
        },
        None => kqueue.is_idle(),
    }
}

proof fn lemma_arming(track: bool, schedule: Schedule, pre: State, post: State)
    requires
        schedule is OneShot || schedule is Interval,
        model::takes(pre, arm_steps(track, schedule)[0], post),
    ensures
        pre is Some,
        post is Some,
        post == Some(Kqueue { timers: post->0.timers, ..pre->0 }),
        post->0.timers.contains_key(KQUEUE_EVFILT_TIMER_ID),
        post->0.timers == pre->0.timers.insert(
            KQUEUE_EVFILT_TIMER_ID,
            Timer::added(
                track,
                told(schedule)->0,
                post->0.timers[KQUEUE_EVFILT_TIMER_ID].countdown.now,
            ),
        ),
{
}

/// A timer that has been made is watched by the reactor, follows the time that was asked for, is
/// told to fire by the schedule that was asked for, and none of its firings has been taken note of.
/// There is no other in its kqueue.
pub proof fn law_new_timer_follows_its_schedule(track: bool, schedule: Schedule, post: State)
    requires
        !(schedule is IntervalAt),
        model::reaches(None, open_steps(track, schedule), post),
    ensures
        post is Some,
        post->0.watched,
        post->0.cloexec,
        post->0.ours(),
        is_requested(post->0, track, schedule),
        !(schedule is Never) ==> post->0.has_own() && post->0.own() == post->0.sole(),
{
    let steps = open_steps(track, schedule);
    let (_, made) = model::lemma_first_step(None::<Kqueue>, steps, post);
    let rest = steps.drop_first();
    assert(rest[0] == Apple::create_steps(track)[1]);
    let (_, closing) = model::lemma_first_step(made, rest, post);
    let rest = rest.drop_first();
    assert(closing->0.timers =~= Map::empty());
    if schedule is Never {
        assert(rest =~= Apple::register_steps());
        let (idle, watched) = model::lemma_first_step(closing, rest, post);
        assert(idle->0.timers =~= Map::empty());
        assert(rest.drop_first().len() == 0);
    } else {
        assert(rest =~= arm_steps(track, schedule) + Apple::register_steps());
        assert(rest[0] == arm_steps(track, schedule)[0]);
        let (idle, armed) = model::lemma_first_step(closing, rest, post);
        lemma_arming(track, schedule, idle, armed);
        let id = KQUEUE_EVFILT_TIMER_ID;
        assert(idle->0.timers =~= Map::empty());
        assert(armed->0.timers =~= Map::empty().insert(id, armed->0.timers[id]));
        lemma_sole(armed->0, id, armed->0.timers[id]);
        assert(rest.drop_first() =~= Apple::register_steps());
        let (later, watched) = model::lemma_first_step(armed, rest.drop_first(), post);
        lemma_sole_passes(armed->0, later->0);
        assert(rest.drop_first().drop_first().len() == 0);
        assert(post->0.timers == later->0.timers);
        assert(later->0.timers =~= Map::empty().insert(id, later->0.timers[id]));
        lemma_sole(later->0, id, later->0.timers[id]);
        lemma_sole(post->0, id, post->0.timers[id]);
    }
}

/// A sleep ends when its duration has passed, and not before: from then on, and only from then on,
/// there is an event of it.
pub proof fn law_sleep_ends_when_its_duration_has_passed(
    track: bool,
    nanos: nat,
    post: State,
    later: State,
)
    requires
        model::reaches(None, open_steps(track, Schedule::OneShot(nanos)), post),
        post.idles(later),
    ensures
        later->0.has_only(later->0.sole()),
        later->0.due() <==> later->0.sole().countdown.elapsed() >= nanos,
{
    law_new_timer_follows_its_schedule(track, Schedule::OneShot(nanos), post);
    lemma_sole_passes(post->0, later->0);
}

/// An interval fires for the first time when its period has passed, and not before.
pub proof fn law_interval_starts_when_its_period_has_passed(
    track: bool,
    period: nat,
    post: State,
    later: State,
)
    requires
        model::reaches(None, open_steps(track, Schedule::Interval(period)), post),
        post.idles(later),
    ensures
        later->0.has_only(later->0.sole()),
        later->0.due() <==> later->0.sole().countdown.elapsed() >= time::or_nanosecond(period),
{
    law_new_timer_follows_its_schedule(track, Schedule::Interval(period), post);
    lemma_sole_passes(post->0, later->0);
    let program = told(Schedule::Interval(period))->0;
    let elapsed = later->0.sole().countdown.elapsed();
    crate::countdown::law_firings_have_come_due(program, elapsed, 0);
}

/// A timer that was made never to fire never does: its kqueue holds none.
pub proof fn law_never_never_fires(track: bool, post: State, later: State)
    requires
        model::reaches(None, open_steps(track, Schedule::Never), post),
        post.idles(later),
    ensures
        later->0.is_idle(),
        !later->0.due(),
{
    law_new_timer_follows_its_schedule(track, Schedule::Never, post);
    assert(later->0.timers =~= Map::empty());
}

/// The timers of this crate stay the only ones in their kqueue as time passes.
proof fn lemma_ours_passes(pre: Kqueue, post: Kqueue)
    requires
        pre.ours(),
        Some(pre).idles(Some(post)),
    ensures
        post.ours(),
{
    assert forall|id: usize| #[trigger] post.timers.contains_key(id) implies id
        == KQUEUE_EVFILT_TIMER_ID by {
        assert(pre.timers.contains_key(id));
    }
}

pub proof fn lemma_clearing(pre: State, rest: Seq<Step<Op>>, post: State) -> (cleared: State)
    requires
        pre is Some,
        model::reaches(pre, Apple::clear_steps() + rest, post),
    ensures
        cleared is Some,
        !cleared->0.has_own(),
        pre->0.ours() ==> cleared->0.is_idle(),
        cleared == Some(Kqueue { timers: cleared->0.timers, ..pre->0 }),
        model::reaches(cleared, rest, post),
{
    let steps = Apple::clear_steps() + rest;
    let (idle, cleared) = model::lemma_first_step(pre, steps, post);
    assert(steps.drop_first() =~= rest);
    assert(steps[0] == Apple::clear_steps()[0]);
    let call = steps[0]->op->Kevent_0;
    let changed = choose|changed: Kqueue|
        {
            &&& #[trigger] idle->0.is_changed(call, changed)
            &&& exists|num_events: usize| #[trigger] changed.delivers(num_events, cleared->0)
        };
    if pre->0.ours() {
        lemma_ours_passes(pre->0, idle->0);
        assert forall|id: usize| !changed.timers.contains_key(id) by {
            if changed.timers.contains_key(id) {
                assert(idle->0.timers.contains_key(id));
            }
        }
        assert(changed.timers =~= Map::empty());
    }
    cleared
}

/// A timer that has been cleared is gone, and with it all its events: it never fires.
pub proof fn law_cleared_timer_never_fires(pre: State, post: State, later: State)
    requires
        pre is Some,
        model::reaches(pre, Apple::clear_steps(), post),
        post.idles(later),
    ensures
        later is Some,
        !later->0.has_own(),
        pre->0.ours() ==> later->0.is_idle() && !later->0.due(),
        later == Some(Kqueue { timers: later->0.timers, ..pre->0 }),
{
    assert(Apple::clear_steps() =~= Apple::clear_steps() + Seq::empty());
    let cleared = lemma_clearing(pre, Seq::empty(), post);
    if pre->0.ours() {
        assert(later->0.timers =~= Map::empty());
    }
}

/// To clear a timer deletes the very timer that was added when it was made, whatever its schedule,
/// and leaves no other behind.
pub proof fn law_what_was_armed_is_cleared(
    track: bool,
    schedule: Schedule,
    made: State,
    before: State,
    cleared: State,
    later: State,
)
    requires
        !(schedule is IntervalAt),
        model::reaches(None, open_steps(track, schedule), made),
        made.idles(before),
        model::reaches(before, Apple::clear_steps(), cleared),
        cleared.idles(later),
    ensures
        cleared->0.is_idle(),
        later->0.is_idle(),
        !later->0.due(),
{
    law_new_timer_follows_its_schedule(track, schedule, made);
    lemma_ours_passes(made->0, before->0);
    law_cleared_timer_never_fires(before, cleared, later);
    law_cleared_timer_never_fires(before, cleared, cleared);
}

/// The same holds of a timer that was reset, however often.
pub proof fn law_what_was_armed_anew_is_cleared(
    track: bool,
    schedule: Schedule,
    pre: State,
    reset: State,
    before: State,
    cleared: State,
)
    requires
        pre is Some,
        pre->0.ours(),
        schedule is OneShot || schedule is Interval,
        model::reaches(pre, reset_steps(track, schedule), reset),
        reset.idles(before),
        model::reaches(before, Apple::clear_steps(), cleared),
    ensures
        reset->0.ours(),
        before->0.ours(),
        cleared->0.is_idle(),
{
    law_reset_timer_follows_its_new_schedule(track, schedule, pre, reset);
    lemma_ours_passes(reset->0, before->0);
    law_cleared_timer_never_fires(before, cleared, cleared);
}

/// A timer can be cleared whether or not it is there: that there is none is no failure.
pub proof fn law_absent_timer_can_be_cleared(pre: State)
    requires
        pre is Some,
        pre->0.is_idle(),
    ensures
        model::takes(pre, Apple::clear_steps()[0], pre),
{
    let op = Apple::clear_steps()[0]->op;
    let call = op->Kevent_0;
    assert(pre->0.timers.remove(call.change->0.ident) =~= pre->0.timers);
    assert(pre->0.is_changed(call, pre->0));
    assert(pre->0.delivers(0, pre->0));
    assert(pre->0.is_called(call, pre->0));
    assert(pre.succeeds(op, pre));
}

/// A timer that has been reset is in the same kqueue, and still the only one there if it was; it
/// has just been told to fire by the new schedule, and no event from before the reset is left to be
/// delivered.
pub proof fn law_reset_timer_follows_its_new_schedule(
    track: bool,
    schedule: Schedule,
    pre: State,
    post: State,
)
    requires
        pre is Some,
        schedule is OneShot || schedule is Interval,
        model::reaches(pre, reset_steps(track, schedule), post),
    ensures
        post is Some,
        post->0.has_own(),
        post->0.own() == Timer::added(track, told(schedule)->0, post->0.own().countdown.now),
        post == Some(Kqueue { timers: post->0.timers, ..pre->0 }),
        pre->0.ours() ==> {
            &&& post->0.ours()
            &&& post->0.has_only(post->0.own())
            &&& post->0.sole() == post->0.own()
            &&& post->0.due() == post->0.own().countdown.due()
        },
{
    assert(reset_steps(track, schedule) =~= Apple::clear_steps() + arm_steps(track, schedule));
    let cleared = lemma_clearing(pre, arm_steps(track, schedule), post);
    let (idle, armed) = model::lemma_first_step(cleared, arm_steps(track, schedule), post);
    lemma_arming(track, schedule, idle, armed);
    assert(arm_steps(track, schedule).drop_first().len() == 0);
    if pre->0.ours() {
        let id = KQUEUE_EVFILT_TIMER_ID;
        assert(idle->0.timers =~= Map::empty());
        assert(armed->0.timers =~= Map::empty().insert(id, armed->0.timers[id]));
        lemma_sole(post->0, id, post->0.timers[id]);
    }
}

/// A sleep that has been reset ends when the new duration has passed since the reset, and not
/// before.
pub proof fn law_reset_sleep_ends_when_its_duration_has_passed(
    track: bool,
    nanos: nat,
    pre: State,
    post: State,
    later: State,
)
    requires
        pre is Some,
        model::reaches(pre, reset_steps(track, Schedule::OneShot(nanos)), post),
        post.idles(later),
    ensures
        later->0.has_own(),
        later->0.own().countdown.due() <==> later->0.own().countdown.now
            >= post->0.own().countdown.now + nanos,
        pre->0.ours() ==> later->0.due() == later->0.own().countdown.due(),
{
    law_reset_timer_follows_its_new_schedule(track, Schedule::OneShot(nanos), pre, post);
    assert(post->0.timers.contains_key(KQUEUE_EVFILT_TIMER_ID));
    if pre->0.ours() {
        lemma_ours_passes(post->0, later->0);
        let id = KQUEUE_EVFILT_TIMER_ID;
        assert(later->0.timers =~= Map::empty().insert(id, later->0.timers[id]));
        lemma_sole(later->0, id, later->0.timers[id]);
    }
}

/// To reset a timer is as good as to make a new one.
pub proof fn law_reset_is_equivalent_to_a_new_timer(
    track: bool,
    schedule: Schedule,
    pre: State,
    reset: State,
    new: State,
)
    requires
        pre is Some,
        schedule is OneShot || schedule is Interval,
        model::reaches(pre, reset_steps(track, schedule), reset),
        model::reaches(None, open_steps(track, schedule), new),
    ensures
        reset->0.own().continuous == new->0.own().continuous,
        reset->0.own().countdown.program == new->0.own().countdown.program,
        reset->0.own().countdown.noticed == new->0.own().countdown.noticed,
        pre->0.ours() ==> is_requested(reset->0, track, schedule),
        is_requested(new->0, track, schedule),
{
    law_reset_timer_follows_its_new_schedule(track, schedule, pre, reset);
    law_new_timer_follows_its_schedule(track, schedule, new);
}

/// A reset makes no kqueue and registers none: it only uses what the timer holds.
pub proof fn law_reset_reuses_resources(track: bool, schedule: Schedule, i: int)
    requires
        0 <= i < reset_steps(track, schedule).len(),
    ensures
        reset_steps(track, schedule)[i] matches Step::Call { op, .. } ==> op is Kevent,
{
}

/// A timer that tracks sleep counts the time that the system spends asleep, and one that ignores
/// sleep does not.
pub proof fn law_timer_tracks_sleep_if_asked(
    kqueue: Kqueue,
    track: bool,
    schedule: Schedule,
    awake: nat,
    asleep: nat,
)
    requires
        schedule is OneShot || schedule is Interval,
        is_requested(kqueue, track, schedule),
    ensures
        kqueue.sole().advance(awake, asleep) == if track {
            awake + asleep
        } else {
            awake
        },
{
}

/// A timer cannot be armed for a span that does not fit an `isize`. That is reported if no earlier
/// call fails: once the kqueue has been made, and on a reset once the timer has been removed.
pub proof fn law_long_span_is_rejected<E>(
    track: bool,
    schedule: Schedule,
    replies: Seq<Result<(), Failure<E>>>,
)
    requires
        schedule is OneShot || schedule is Interval,
        schedule.all_spans(|span: nat| span > isize::MAX),
        replies.len() >= 2,
        replies[0] is Ok,
        replies[1] is Ok,
    ensures
        procedure::outcome(open_steps(track, schedule), (), replies) == Outcome::<(), E>::Failed(
            Error::InvalidInput,
        ),
        procedure::outcome(reset_steps(track, schedule), (), replies) == Outcome::<(), E>::Failed(
            Error::InvalidInput,
        ),
{
    assert(procedure::accepted(open_steps(track, schedule), replies, 2));
    procedure::law_rejection_is_reported(open_steps(track, schedule), (), replies, 2);
    assert(procedure::accepted(reset_steps(track, schedule), replies, 1));
    procedure::law_rejection_is_reported(reset_steps(track, schedule), (), replies, 1);
}

/// How the call by which a poll takes an event can end.
pub open spec fn receives<E>(pre: State, reply: Result<usize, E>, post: State) -> bool {
    match reply {
        Ok(num_events) => pre is Some && post is Some && pre->0.delivers(num_events, post->0),
        Err(_) => post == pre,
    }
}

/// An attempt finds a firing only if there is one that nobody has taken note of, and leaves none
/// behind if there is no timer but the one of this crate; it finds none only if there is none, and
/// leaves the timer as it is. An error is handed on.
pub proof fn law_attempt_tells_the_truth<E>(pre: State, reply: Result<usize, E>, post: State)
    requires
        pre is Some,
        receives(pre, reply, post),
    ensures
        apple::attempt_of(reply).honest(pre->0.due()),
        reply matches Err(error) ==> apple::attempt_of(reply) == Attempt::Failed(error),
        apple::attempt_of(reply) is Failed ==> reply is Err,
        apple::attempt_of(reply) is Fired && pre->0.ours() ==> !post->0.due(),
        !(apple::attempt_of(reply) is Fired) ==> post == pre,
{
    if apple::attempt_of(reply) is Fired && pre->0.ours() && post->0.due() {
        let id = choose|id: usize|
            post->0.timers.contains_key(id) && (#[trigger] post->0.timers[id]).countdown.due();
        assert(pre->0.timers.contains_key(id));
    }
}

/// Whether `attempt` can be what is made of a call that takes an event in the state `pre`.
pub open spec fn attempts<E>(pre: State, attempt: Attempt<E>) -> bool {
    &&& pre is Some
    &&& exists|reply: Result<usize, E>, post: State| #[trigger]
        receives(pre, reply, post) && attempt == apple::attempt_of(reply)
}

proof fn lemma_attempts_are_honest<E>(states: Seq<State>, rounds: Seq<Round<E>>)
    requires
        states.len() == rounds.len(),
        forall|i: int|
            0 <= i < rounds.len() && (#[trigger] rounds[i]).readiness is Readable ==> attempts(
                states[i],
                rounds[i].attempt,
            ),
    ensures
        forall|i: int|
            0 <= i < rounds.len() ==> (#[trigger] rounds[i]).honest(states[i]->0.due()),
{
}

/// A poll by tokio, whose attempts are made in the given states, finds that the timer has fired
/// only if the timer was due in one of them, and had not been due in any before.
pub proof fn law_tokio_poll_is_ready_only_if_due<E>(states: Seq<State>, rounds: Seq<Round<E>>)
    requires
        states.len() == rounds.len(),
        forall|i: int|
            0 <= i < rounds.len() && (#[trigger] rounds[i]).readiness is Readable ==> attempts(
                states[i],
                rounds[i].attempt,
            ),
        poll::answer_of(rounds) == Some(Poll::Ready(Ok::<(), E>(()))),
    ensures
        exists|i: int|
            0 <= i < states.len() && (#[trigger] states[i])->0.due() && forall|j: int|
                0 <= j < i ==> !(#[trigger] states[j])->0.due(),
{
    lemma_attempts_are_honest(states, rounds);
    let due = Seq::new(states.len(), |i: int| states[i]->0.due());
    poll::law_ready_means_due(rounds, due);
    let i = choose|i: int|
        0 <= i < due.len() && #[trigger] due[i] && forall|j: int|
            0 <= j < i ==> !#[trigger] due[j];
    assert(states[i]->0.due());
    assert forall|j: int| 0 <= j < i implies !(#[trigger] states[j])->0.due() by {
        assert(!due[j]);
    }
}

/// A poll by smol, whose attempts are made in the given states, finds that the timer has fired only
/// if the timer was due in one of them.
pub proof fn law_smol_poll_is_ready_only_if_due<E>(
    start: State,
    first: Attempt<E>,
    states: Seq<State>,
    rounds: Seq<Round<E>>,
)
    requires
        attempts(start, first),
        states.len() == rounds.len(),
        forall|i: int|
            0 <= i < rounds.len() && (#[trigger] rounds[i]).readiness is Readable ==> attempts(
                states[i],
                rounds[i].attempt,
            ),
        smol::poll_answer(first, rounds) == Some(Poll::Ready(Ok::<(), E>(()))),
    ensures
        start->0.due() || exists|i: int| 0 <= i < states.len() && (#[trigger] states[i])->0.due(),
{
    lemma_attempts_are_honest(states, rounds);
    let due = Seq::new(states.len(), |i: int| states[i]->0.due());
    smol::law_ready_means_due(first, start->0.due(), rounds, due);
    if !start->0.due() {
        let i = choose|i: int| 0 <= i < due.len() && #[trigger] due[i];
        assert(states[i]->0.due());
    }
}

} // verus!
