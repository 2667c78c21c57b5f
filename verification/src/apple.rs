//! Timers on Apple systems, by `kqueue`.
//!
//! Each timer has a kqueue of its own. The kqueue delivers an event when the timer fires.

use vstd::prelude::*;

use crate::backend::{one, Backend};
use crate::poll::Attempt;
use crate::procedure::{OnError, Step};
use crate::time;
use crate::time::{Duration, TimeSpec};

pub mod kernel;
pub mod usage;

verus! {

/// The identifier of the timer in its kqueue.
pub const KQUEUE_EVFILT_TIMER_ID: usize = 0x54494D45;

/// The event flags that are used.
#[derive(Clone, Copy, Debug, PartialEq, Eq, Structural)]
pub struct EvFlags {
    /// `EV_ADD`.
    pub add: bool,
    /// `EV_ENABLE`.
    pub enable: bool,
    /// `EV_ONESHOT`.
    pub oneshot: bool,
    /// `EV_DELETE`.
    pub delete: bool,
}

/// The flags of the timer filter that are used.
#[derive(Clone, Copy, Debug, PartialEq, Eq, Structural)]
pub struct FilterFlag {
    /// `NOTE_NSECONDS`.
    pub nseconds: bool,
    /// `NOTE_MACH_CONTINUOUS_TIME`.
    pub mach_continuous_time: bool,
}

/// An event of the filter `EVFILT_TIMER`.
#[derive(Clone, Copy, Debug, PartialEq, Eq, Structural)]
pub struct KEvent {
    pub ident: usize,
    pub flags: EvFlags,
    pub fflags: FilterFlag,
    pub data: isize,
    pub udata: isize,
}

/// A call of `kevent`.
#[derive(Clone, Copy, Debug, PartialEq, Eq, Structural)]
pub struct KeventCall {
    /// The change to make.
    pub change: Option<KEvent>,
    /// The number of events that can be delivered. If there is room for an event, it also takes
    /// the report of a change that could not be made.
    pub capacity: usize,
    /// How long to wait for an event.
    pub timeout: TimeSpec,
}

/// The calls by which a timer in a kqueue is used.
#[derive(Clone, Copy, Debug, PartialEq, Eq, Structural)]
pub enum Op {
    /// Make a kqueue.
    NewKqueue,
    /// Set its `FD_CLOEXEC`.
    SetCloexec,
    /// Change it, or take an event from it.
    Kevent(KeventCall),
    /// Have the reactor watch it for readability.
    Register,
}

impl TimeSpec {
    /// No time at all.
    pub open spec fn zero() -> TimeSpec {
        TimeSpec { tv_sec: 0, tv_nsec: 0 }
    }
}

impl KEvent {
    /// The event that adds the timer.
    pub open spec fn adding(track: bool, oneshot: bool, nanos: nat) -> KEvent {
        KEvent {
            ident: KQUEUE_EVFILT_TIMER_ID,
            flags: EvFlags { add: true, enable: true, oneshot, delete: false },
            fflags: FilterFlag { nseconds: true, mach_continuous_time: track },
            data: nanos as isize,
            udata: 0,
        }
    }

    /// The event that deletes the timer.
    pub open spec fn deleting() -> KEvent {
        KEvent {
            ident: KQUEUE_EVFILT_TIMER_ID,
            flags: EvFlags { add: false, enable: false, oneshot: false, delete: true },
            fflags: FilterFlag { nseconds: false, mach_continuous_time: false },
            data: 0,
            udata: 0,
        }
    }
}

/// The step that adds the timer, which is refused if its duration does not fit an `isize`.
pub open spec fn add_timer_step(track: bool, oneshot: bool, nanos: nat) -> Step<Op> {
    if nanos <= isize::MAX {
        Step::must(
            Op::Kevent(
                KeventCall {
                    change: Some(KEvent::adding(track, oneshot, nanos)),
                    capacity: 0,
                    timeout: TimeSpec::zero(),
                },
            ),
        )
    } else {
        Step::Reject
    }
}

/// The step that deletes the timer. There is room to report that there is none, so that this is no
/// failure.
pub open spec fn remove_timer_step() -> Step<Op> {
    Step::must(
        Op::Kevent(
            KeventCall {
                change: Some(KEvent::deleting()),
                capacity: 1,
                timeout: TimeSpec::zero(),
            },
        ),
    )
}

/// Makes a kqueue that is closed when another program is executed.
pub fn kqueue() -> (steps: Vec<Step<Op>>)
    ensures
        steps@ == seq![Step::must(Op::NewKqueue), Step::must(Op::SetCloexec)],
{
    let mut steps: Vec<Step<Op>> = Vec::new();
    steps.push(Step::Call { op: Op::NewKqueue, on_error: OnError::Fail });
    steps.push(Step::Call { op: Op::SetCloexec, on_error: OnError::Fail });
    steps
}

/// Adds a timer to the kqueue.
///
/// It replaces a timer that is there.
pub fn add_timer(include_system_sleep: bool, is_oneshot: bool, duration: Duration) -> (step: Step<
    Op,
>)
    ensures
        step == add_timer_step(include_system_sleep, is_oneshot, duration@),
{
    let nanos: u128 = duration.as_nanos();
    if nanos > isize::MAX as u128 {
        return Step::Reject;
    }
    let event: KEvent = KEvent {
        ident: KQUEUE_EVFILT_TIMER_ID,
        flags: EvFlags { add: true, enable: true, oneshot: is_oneshot, delete: false },
        fflags: FilterFlag { nseconds: true, mach_continuous_time: include_system_sleep },
        data: nanos as isize,
        udata: 0,
    };
    Step::Call {
        op: Op::Kevent(
            KeventCall {
                change: Some(event),
                capacity: 0,
                timeout: TimeSpec { tv_sec: 0, tv_nsec: 0 },
            },
        ),
        on_error: OnError::Fail,
    }
}

/// Why [`add_timer`] refuses a duration.
pub fn rejection_message() -> (message: &'static str)
    ensures
        message@ == "Duration cannot be represented in isize nanoseconds"@,
{
    "Duration cannot be represented in isize nanoseconds"
}

/// Removes the timer from the kqueue, if there is one.
pub fn remove_timer() -> (step: Step<Op>)
    ensures
        step == remove_timer_step(),
{
    let event: KEvent = KEvent {
        ident: KQUEUE_EVFILT_TIMER_ID,
        flags: EvFlags { add: false, enable: false, oneshot: false, delete: true },
        fflags: FilterFlag { nseconds: false, mach_continuous_time: false },
        data: 0,
        udata: 0,
    };
    Step::Call {
        op: Op::Kevent(
            KeventCall {
                change: Some(event),
                capacity: 1,
                timeout: TimeSpec { tv_sec: 0, tv_nsec: 0 },
            },
        ),
        on_error: OnError::Fail,
    }
}

/// The call by which a poll takes an event from the kqueue, without waiting for one.
pub fn receive() -> (call: KeventCall)
    ensures
        call == (KeventCall { change: None, capacity: 1, timeout: TimeSpec::zero() }),
{
    KeventCall { change: None, capacity: 1, timeout: TimeSpec { tv_sec: 0, tv_nsec: 0 } }
}

/// What the number of events that [`receive`] has delivered says of the timer.
pub open spec fn attempt_of<E>(reply: Result<usize, E>) -> Attempt<E> {
    match reply {
        Ok(num_events) => if num_events > 0 {
            Attempt::Fired
        } else {
            Attempt::WouldBlock
        },
        Err(error) => Attempt::Failed(error),
    }
}

/// What the number of events that [`receive`] has delivered says of the timer.
pub fn attempt<E>(reply: Result<usize, E>) -> (attempt: Attempt<E>)
    ensures
        attempt == attempt_of(reply),
{
    match reply {
        Ok(num_events) => if num_events > 0 {
            Attempt::Fired
        } else {
            Attempt::WouldBlock
        },
        Err(error) => Attempt::Failed(error),
    }
}

/// The timers of Apple systems.
///
/// A period of zero would keep a timer from repeating. It is written as one nanosecond.
pub struct Apple;

impl Backend for Apple {
    type Op = Op;

    open spec fn create_steps(track: bool) -> Seq<Step<Op>> {
        seq![Step::must(Op::NewKqueue), Step::must(Op::SetCloexec)]
    }

    open spec fn register_steps() -> Seq<Step<Op>> {
        seq![Step::must(Op::Register)]
    }

    open spec fn clear_steps() -> Seq<Step<Op>> {
        seq![remove_timer_step()]
    }

    open spec fn one_shot_steps(track: bool, nanos: nat) -> Seq<Step<Op>> {
        seq![add_timer_step(track, true, nanos)]
    }

    open spec fn interval_steps(track: bool, nanos: nat) -> Seq<Step<Op>> {
        seq![add_timer_step(track, false, time::or_nanosecond(nanos))]
    }

    /// A kqueue whose timer was deleted is still watched.
    open spec fn watch_again_steps() -> Seq<Step<Op>> {
        Seq::empty()
    }

    fn create(track: bool) -> (steps: Vec<Step<Op>>) {
        kqueue()
    }

    fn register() -> (steps: Vec<Step<Op>>) {
        one(Step::Call { op: Op::Register, on_error: OnError::Fail })
    }

    fn clear() -> (steps: Vec<Step<Op>>) {
        one(remove_timer())
    }

    fn one_shot(track: bool, duration: Duration) -> (steps: Vec<Step<Op>>) {
        one(add_timer(track, true, duration))
    }

    fn interval(track: bool, duration: Duration) -> (steps: Vec<Step<Op>>) {
        one(add_timer(track, false, duration.or_nanosecond()))
    }

    fn watch_again() -> (steps: Vec<Step<Op>>) {
        Vec::new()
    }
}

} // verus!
