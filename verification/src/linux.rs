//! Timers on Linux and Android, by `timerfd`.

use vstd::prelude::*;

use crate::backend::{one, Backend, DelayedStart};
use crate::poll::Attempt;
use crate::procedure::{ErrorKind, Failure, OnError, Step};
use crate::time;
use crate::time::{Duration, TimeSpec};

pub mod kernel;
pub mod usage;

verus! {

/// The clocks that a `timerfd` can follow.
#[derive(Clone, Copy, Debug, PartialEq, Eq, Structural)]
pub enum ClockId {
    /// `CLOCK_MONOTONIC`.
    Monotonic,
    /// `CLOCK_BOOTTIME`.
    Boottime,
}

/// The flags with which a `timerfd` is made.
#[derive(Clone, Copy, Debug, PartialEq, Eq, Structural)]
pub struct TimerFlags {
    /// `TFD_NONBLOCK`.
    pub nonblock: bool,
    /// `TFD_CLOEXEC`.
    pub cloexec: bool,
}

/// When a `timerfd` expires, counted from the moment at which it is set.
#[derive(Clone, Copy, Debug, PartialEq, Eq, Structural)]
pub enum Expiration {
    /// Once, after the given span.
    OneShot(TimeSpec),
    /// Each time the given span has passed.
    Interval(TimeSpec),
    /// After the first span, and then each time the second has passed.
    IntervalDelayed(TimeSpec, TimeSpec),
}

/// The calls by which a `timerfd` is used.
#[derive(Clone, Copy, Debug, PartialEq, Eq, Structural)]
pub enum Op {
    /// Make a `timerfd`.
    NewTimer { clock_id: ClockId, flags: TimerFlags },
    /// Set it.
    SetTime { expiration: Expiration },
    /// Disarm it.
    Unset,
    /// Read the number of expirations since the last read, without waiting for one.
    Wait,
    /// Have the reactor watch it for readability.
    Register,
}

impl ClockId {
    /// The clock that does, or does not, count the time that the system spends asleep.
    pub open spec fn tracking(track: bool) -> ClockId {
        if track {
            ClockId::Boottime
        } else {
            ClockId::Monotonic
        }
    }
}

/// The clock that does, or does not, count the time that the system spends asleep.
pub fn clock_id(track: bool) -> (clock_id: ClockId)
    ensures
        clock_id == ClockId::tracking(track),
{
    if track {
        ClockId::Boottime
    } else {
        ClockId::Monotonic
    }
}

/// Makes a timer that does not block and is closed when another program is executed.
pub fn new_timer(clock_id: ClockId) -> (step: Step<Op>)
    ensures
        step == Step::must(
            Op::NewTimer { clock_id, flags: TimerFlags { nonblock: true, cloexec: true } },
        ),
{
    Step::Call {
        op: Op::NewTimer { clock_id, flags: TimerFlags { nonblock: true, cloexec: true } },
        on_error: OnError::Fail,
    }
}

/// Sets the timer to expire once, when `duration` has passed.
///
/// A `duration` of zero disarms it.
pub fn sleep(duration: Duration) -> (step: Step<Op>)
    ensures
        step == Step::must(
            Op::SetTime { expiration: Expiration::OneShot(TimeSpec::of(duration@)) },
        ),
{
    Step::Call {
        op: Op::SetTime { expiration: Expiration::OneShot(TimeSpec::from_duration(duration)) },
        on_error: OnError::Fail,
    }
}

/// Sets the timer to expire each time `duration` has passed.
///
/// A `duration` of zero disarms it.
pub fn interval(duration: Duration) -> (step: Step<Op>)
    ensures
        step == Step::must(
            Op::SetTime { expiration: Expiration::Interval(TimeSpec::of(duration@)) },
        ),
{
    Step::Call {
        op: Op::SetTime { expiration: Expiration::Interval(TimeSpec::from_duration(duration)) },
        on_error: OnError::Fail,
    }
}

/// Sets the timer to expire when `delay_until_start` has passed, and then each time `duration` has
/// passed.
///
/// A `delay_until_start` of zero disarms it; with a `duration` of zero it expires once.
pub fn interval_at(delay_until_start: Duration, duration: Duration) -> (step: Step<Op>)
    ensures
        step == Step::must(
            Op::SetTime {
                expiration: Expiration::IntervalDelayed(
                    TimeSpec::of(delay_until_start@),
                    TimeSpec::of(duration@),
                ),
            },
        ),
{
    Step::Call {
        op: Op::SetTime {
            expiration: Expiration::IntervalDelayed(
                TimeSpec::from_duration(delay_until_start),
                TimeSpec::from_duration(duration),
            ),
        },
        on_error: OnError::Fail,
    }
}

/// Disarms the timer, and reads the expirations that nobody has read. That there are none is no
/// failure.
pub fn clear() -> (steps: Vec<Step<Op>>)
    ensures
        steps@ == seq![
            Step::must(Op::Unset),
            Step::Call { op: Op::Wait, on_error: OnError::IgnoreWouldBlock },
        ],
{
    let mut steps: Vec<Step<Op>> = Vec::new();
    steps.push(Step::Call { op: Op::Unset, on_error: OnError::Fail });
    steps.push(Step::Call { op: Op::Wait, on_error: OnError::IgnoreWouldBlock });
    steps
}

/// What a read of the expirations says of the timer.
pub open spec fn attempt_of<E>(reply: Result<(), Failure<E>>) -> Attempt<E> {
    match reply {
        Ok(_) => Attempt::Fired,
        Err(failure) => if failure.kind is WouldBlock {
            Attempt::WouldBlock
        } else {
            Attempt::Failed(failure.error)
        },
    }
}

/// What a read of the expirations says of the timer.
pub fn attempt<E>(reply: Result<(), Failure<E>>) -> (attempt: Attempt<E>)
    ensures
        attempt == attempt_of(reply),
{
    match reply {
        Ok(_) => Attempt::Fired,
        Err(failure) => if failure.kind == ErrorKind::WouldBlock {
            Attempt::WouldBlock
        } else {
            Attempt::Failed(failure.error)
        },
    }
}

/// The timers of Linux and Android.
///
/// A span of zero would disarm a `timerfd` or keep it from repeating. It is written as one
/// nanosecond, so that a timer whose time has come fires.
pub struct Linux;

impl Backend for Linux {
    type Op = Op;

    open spec fn create_steps(track: bool) -> Seq<Step<Op>> {
        seq![
            Step::must(
                Op::NewTimer {
                    clock_id: ClockId::tracking(track),
                    flags: TimerFlags { nonblock: true, cloexec: true },
                },
            ),
        ]
    }

    open spec fn register_steps() -> Seq<Step<Op>> {
        seq![Step::must(Op::Register)]
    }

    open spec fn clear_steps() -> Seq<Step<Op>> {
        seq![
            Step::must(Op::Unset),
            Step::Call { op: Op::Wait, on_error: OnError::IgnoreWouldBlock },
        ]
    }

    open spec fn one_shot_steps(track: bool, nanos: nat) -> Seq<Step<Op>> {
        seq![
            Step::must(
                Op::SetTime {
                    expiration: Expiration::OneShot(TimeSpec::of(time::or_nanosecond(nanos))),
                },
            ),
        ]
    }

    open spec fn interval_steps(track: bool, nanos: nat) -> Seq<Step<Op>> {
        seq![
            Step::must(
                Op::SetTime {
                    expiration: Expiration::Interval(TimeSpec::of(time::or_nanosecond(nanos))),
                },
            ),
        ]
    }

    /// A timer that was cleared is still watched.
    open spec fn watch_again_steps() -> Seq<Step<Op>> {
        Seq::empty()
    }

    fn create(track: bool) -> (steps: Vec<Step<Op>>) {
        one(new_timer(clock_id(track)))
    }

    fn register() -> (steps: Vec<Step<Op>>) {
        one(Step::Call { op: Op::Register, on_error: OnError::Fail })
    }

    fn clear() -> (steps: Vec<Step<Op>>) {
        clear()
    }

    fn one_shot(track: bool, duration: Duration) -> (steps: Vec<Step<Op>>) {
        one(sleep(duration.or_nanosecond()))
    }

    fn interval(track: bool, duration: Duration) -> (steps: Vec<Step<Op>>) {
        one(interval(duration.or_nanosecond()))
    }

    fn watch_again() -> (steps: Vec<Step<Op>>) {
        Vec::new()
    }
}

impl DelayedStart for Linux {
    open spec fn interval_at_steps(track: bool, delay: nat, nanos: nat) -> Seq<Step<Op>> {
        seq![
            Step::must(
                Op::SetTime {
                    expiration: Expiration::IntervalDelayed(
                        TimeSpec::of(time::or_nanosecond(delay)),
                        TimeSpec::of(time::or_nanosecond(nanos)),
                    ),
                },
            ),
        ]
    }

    fn interval_at(track: bool, delay_until_start: Duration, duration: Duration) -> (steps: Vec<
        Step<Op>,
    >) {
        one(interval_at(delay_until_start.or_nanosecond(), duration.or_nanosecond()))
    }
}

} // verus!
