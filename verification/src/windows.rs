//! Timers on Windows, by waitable timers and an I/O completion port.
//!
//! A background thread takes the completions of all timers from one completion port. When a timer
//! fires, it takes note of the firing in the state that it shares with the timer, and wakes the
//! task that has polled the timer.

use vstd::prelude::*;

use crate::backend::{one, Backend, DelayedStart};
use crate::poll::Poll;
use crate::procedure::{OnError, Step};
use crate::time::Duration;
use crate::windows::background::BackgroundTimerThread;

pub mod background;
pub mod course;
pub mod firing;
pub mod kernel;
pub mod protocol;
pub mod usage;

verus! {

/// What a timer shares with the background thread: the system's timer, the waker of the task that
/// has polled last, the firings, and the packet by which the system reports them.
#[derive(Debug)]
pub struct SharedTimerState<T, W, P> {
    pub timer: T,
    /// The waker of the task that has polled last.
    pub waker: Option<W>,
    /// One less than the number of firings, or nothing if there was none.
    pub fired_counter: Option<usize>,
    /// The completion key of the firings that count. It changes when the timer is cleared, so that
    /// entries that were on their way by then can be told from later ones.
    pub generation: usize,
    pub wait_completion_packet: Option<P>,
}

/// What a packet is associated with, besides the completion port and the timer: what the system
/// hands back in each entry.
#[derive(Clone, Copy, Debug, PartialEq, Eq)]
pub struct Association<C> {
    /// `KeyContext`, which comes back as the completion key.
    pub completion_key: usize,
    /// `ApcContext`, which comes back as the address of the context.
    pub context: C,
}

/// The number of firings that a counter stands for.
pub open spec fn firings(counter: Option<usize>) -> nat {
    match counter {
        None => 0,
        Some(count) => count as nat + 1,
    }
}

/// The counter after one more firing.
pub open spec fn one_more(counter: Option<usize>) -> Option<usize> {
    Some(firings(counter) as usize)
}

/// The generation that follows `generation`. Generations are even, so that none of them is
/// [`BackgroundTimerThread::DROP_KEY`].
pub open spec fn next_generation(generation: usize) -> usize {
    if generation <= usize::MAX - 2 {
        (generation + 2) as usize
    } else {
        0
    }
}

impl<T, W, P> SharedTimerState<T, W, P> {
    /// The state after one more firing.
    pub open spec fn after_firing(self) -> Self {
        SharedTimerState { fired_counter: one_more(self.fired_counter), ..self }
    }

    /// The state after a poll by the task of `waker`.
    pub open spec fn after_poll(self, waker: W) -> Self {
        SharedTimerState { waker: Some(waker), ..self }
    }

    /// The state after an entry with the given completion key: the firing counts if the timer has
    /// not been cleared since its packet was associated.
    pub open spec fn after_entry(self, completion_key: usize) -> Self {
        if completion_key == self.generation {
            self.after_firing()
        } else {
            self
        }
    }

    /// What the packet of the timer is associated with: the generation, and the timer's context.
    pub open spec fn associated_by<C>(self, context: C) -> Association<C> {
        Association { completion_key: self.generation, context }
    }

    /// The state without a task that waits, and without firings, in the next generation.
    pub open spec fn after_clear(self) -> Self {
        SharedTimerState {
            waker: None::<W>,
            fired_counter: None,
            generation: next_generation(self.generation),
            ..self
        }
    }

    /// The state of a timer that has never been polled and has never fired.
    pub fn new(timer: T) -> (state: Self)
        ensures
            state == (SharedTimerState {
                timer,
                waker: None::<W>,
                fired_counter: None,
                generation: 0,
                wait_completion_packet: None::<P>,
            }),
    {
        SharedTimerState {
            timer,
            waker: None,
            fired_counter: None,
            generation: 0,
            wait_completion_packet: None,
        }
    }

    /// What is handed to the system when the packet is associated, for a new timer, after a firing,
    /// and after a reset alike. For a timer that was never cleared, the completion key is null.
    pub fn association<C>(&self, context: C) -> (a: Association<C>)
        ensures
            a == self.associated_by(context),
            a == (Association { completion_key: self.generation, context }),
    {
        Association { completion_key: self.generation, context }
    }

    /// The waker of the task in which this timer was polled, if any, which is to be woken.
    pub fn wake(&self) -> (waker: Option<&W>)
        ensures
            waker == (match self.waker {
                Some(waker) => Some(&waker),
                None => None,
            }),
    {
        match &self.waker {
            Some(waker) => Some(waker),
            None => None,
        }
    }

    /// Takes note that this timer has fired. A task that awaits the timer after it has fired still
    /// sees the firing.
    pub fn fired(&mut self)
        requires
            firings(old(self).fired_counter) <= usize::MAX,
        ensures
            *final(self) == old(self).after_firing(),
    {
        self.fired_counter = Some(
            match self.fired_counter {
                None => 0,
                Some(count) => count + 1,
            },
        );
    }
}

/// The rights with which a waitable timer is made.
#[derive(Clone, Copy, Debug, PartialEq, Eq, Structural)]
pub struct TimerAccess {
    /// `TIMER_MODIFY_STATE`.
    pub modify_state: bool,
    /// `TIMER_QUERY_STATE`.
    pub query_state: bool,
    /// `SYNCHRONIZE`.
    pub synchronize: bool,
}

/// The arguments of `SetWaitableTimer`.
#[derive(Clone, Copy, Debug, PartialEq, Eq, Structural)]
pub struct TimerSetting {
    /// When the timer fires first, in units of 100 nanoseconds. A negative time is relative.
    pub due_time: i64,
    /// The time between two firings in milliseconds, or 0 if there is only one.
    pub period: i32,
}

/// The calls by which a waitable timer is used.
#[derive(Clone, Copy, Debug, PartialEq, Eq, Structural)]
pub enum Op {
    /// `CreateWaitableTimerExW`.
    CreateTimer { high_resolution: bool, access: TimerAccess },
    /// `NtCreateWaitCompletionPacket`, with all rights.
    CreatePacket,
    /// `NtAssociateWaitCompletionPacket` of the packet with the completion port and the timer, by
    /// [`SharedTimerState::association`]. For a new timer see [`enqueue_timer`] and [`enqueued`];
    /// for a timer that was cleared, [`SharedTimerState::reassociated`].
    AssociatePacket,
    /// `SetWaitableTimer`.
    SetTimer(TimerSetting),
    /// `CancelWaitableTimer`.
    CancelTimer,
    /// No call into the system, but [`Timer::clear`].
    ClearState,
    /// `NtCancelWaitCompletionPacket`, which also takes back an entry that is on its way.
    CancelPacket,
}

/// The whole milliseconds of a period of `nanos` nanoseconds, or one if there are none, so that the
/// timer repeats.
pub open spec fn period_millis(nanos: nat) -> nat {
    if nanos < 1_000_000 {
        1
    } else {
        nanos / 1_000_000
    }
}

/// Whether the system can represent a first firing after `deadline` nanoseconds and a period of
/// `period` nanoseconds, if there is one.
pub open spec fn representable(deadline: nat, period: Option<nat>) -> bool {
    &&& deadline / 100 <= i64::MAX
    &&& period matches Some(nanos) ==> period_millis(nanos) <= i32::MAX
}

impl TimerSetting {
    /// The setting for a first firing after `deadline` nanoseconds, and further ones each time
    /// `period` nanoseconds have passed, if there is one.
    ///
    /// What is less than a unit is cut off, but for a period that would be zero.
    pub open spec fn of(deadline: nat, period: Option<nat>) -> TimerSetting
        recommends
            representable(deadline, period),
    {
        TimerSetting {
            due_time: (-(deadline as int / 100)) as i64,
            period: match period {
                Some(nanos) => period_millis(nanos) as i32,
                None => 0,
            },
        }
    }
}

/// The step that sets the timer, which is refused if the system cannot represent what is asked for.
pub open spec fn set_timer_step(deadline: nat, period: Option<nat>) -> Step<Op> {
    if representable(deadline, period) {
        Step::must(Op::SetTimer(TimerSetting::of(deadline, period)))
    } else {
        Step::Reject
    }
}

/// A timer is never set to an absolute time. The time to which it is set is the deadline, cut to a
/// unit of 100 nanoseconds.
pub proof fn law_deadline_stays_relative(deadline: nat, period: Option<nat>)
    requires
        representable(deadline, period),
    ensures
        ({
            let due_time = TimerSetting::of(deadline, period).due_time;
            &&& due_time <= 0
            &&& -due_time * 100 <= deadline < -due_time * 100 + 100
        }),
{
}

/// A timer that is to repeat does: its period is the one that was asked for, cut to a millisecond,
/// or one millisecond if it is shorter than that.
pub proof fn law_period_is_cut_to_a_millisecond(deadline: nat, nanos: nat)
    requires
        representable(deadline, Some(nanos)),
    ensures
        ({
            let period = TimerSetting::of(deadline, Some(nanos)).period;
            &&& period > 0
            &&& nanos < 1_000_000 ==> period == 1
            &&& nanos >= 1_000_000 ==> period * 1_000_000 <= nanos < (period + 1) * 1_000_000
        }),
{
}

/// Makes a timer of high resolution.
pub fn new_timer() -> (step: Step<Op>)
    ensures
        step == Step::must(
            Op::CreateTimer {
                high_resolution: true,
                access: TimerAccess { modify_state: true, query_state: true, synchronize: true },
            },
        ),
{
    Step::Call {
        op: Op::CreateTimer {
            high_resolution: true,
            access: TimerAccess { modify_state: true, query_state: true, synchronize: true },
        },
        on_error: OnError::Fail,
    }
}

/// Sets the timer to fire when `deadline` has passed, and then each time `period` has passed, if
/// there is one. A span that the system cannot represent is refused.
pub fn set_timer(deadline: Duration, period: Option<Duration>) -> (step: Step<Op>)
    ensures
        step == set_timer_step(
            deadline@,
            match period {
                Some(duration) => Some(duration@),
                None => None,
            },
        ),
{
    let units: u128 = deadline.as_nanos() / 100;
    let millis: u128 = match period {
        Some(duration) => {
            let whole: u128 = duration.as_nanos() / 1_000_000;
            if whole == 0 {
                1
            } else {
                whole
            }
        },
        None => 0,
    };
    if units > i64::MAX as u128 || millis > i32::MAX as u128 {
        return Step::Reject;
    }
    // Negative time is relative.
    let due_time: i64 = -(units as i64);
    let period: i32 = millis as i32;
    Step::Call { op: Op::SetTimer(TimerSetting { due_time, period }), on_error: OnError::Fail }
}

/// Why [`set_timer`] refuses a span.
pub fn rejection_message() -> (message: &'static str)
    ensures
        message@ == "Duration cannot be represented by a waitable timer"@,
{
    "Duration cannot be represented by a waitable timer"
}

/// The step that stops the timer, as far as that can be done: its failure is ignored.
pub open spec fn cancel_timer_step() -> Step<Op> {
    Step::Call { op: Op::CancelTimer, on_error: OnError::Ignore }
}

/// Stops the timer, as far as that can be done.
pub fn cancel_timer() -> (step: Step<Op>)
    ensures
        step == cancel_timer_step(),
{
    Step::Call { op: Op::CancelTimer, on_error: OnError::Ignore }
}

/// Keeps the packet by which the system is going to report the firings of the timer. Until then
/// the state has none.
pub fn enqueue_timer<T, W, P>(state: &mut SharedTimerState<T, W, P>, packet: P)
    requires
        old(state).wait_completion_packet is None,
    ensures
        *final(state) == (SharedTimerState {
            wait_completion_packet: Some(packet),
            ..*old(state)
        }),
{
    state.wait_completion_packet = Some(packet);
}

/// The packet of a new timer is associated by a null key and by the timer's own context. That stays
/// so as long as the timer is not cleared, however often it fires or is polled.
pub proof fn law_key_is_null_until_the_timer_is_cleared<T, W, P, C>(
    state: SharedTimerState<T, W, P>,
    completion_key: usize,
    waker: W,
    context: C,
)
    requires
        state.generation == 0,
    ensures
        state.associated_by(context) == (Association { completion_key: 0, context }),
        state.after_entry(completion_key).associated_by(context) == state.associated_by(context),
        state.after_poll(waker).associated_by(context) == state.associated_by(context),
{
}

/// How the attempt to associate a packet with the completion port has ended.
#[derive(Debug, PartialEq, Eq)]
pub enum Enqueued<C, E> {
    /// The system holds the context, and hands it back with each completion.
    Queued { context: C, already_signaled: bool },
    /// The system does not hold the context, which is to be freed.
    Refused { free: C, error: E },
}

/// What becomes of the context of a timer whose packet the system was asked to associate. The reply
/// says whether the timer had been signaled already.
pub fn enqueued<C, E>(context: C, reply: Result<u8, E>) -> (result: Enqueued<C, E>)
    ensures
        result == (match reply {
            Ok(signaled) => Enqueued::Queued { context, already_signaled: signaled != 0 },
            Err(error) => Enqueued::Refused { free: context, error },
        }),
{
    match reply {
        Ok(signaled) => Enqueued::Queued { context, already_signaled: signaled != 0 },
        Err(error) => Enqueued::Refused { free: context, error },
    }
}

/// A timer: the context that the system hands back with each completion, and what the timer has
/// seen of its firings.
#[derive(Debug)]
pub struct Timer<C> {
    /// The context, which the background thread frees when the timer is gone.
    pub context: C,
    /// The counter of [`SharedTimerState::fired_counter`] at the last firing that was seen.
    pub last_fired: Option<usize>,
}

/// What is to be done when a timer goes.
#[derive(Debug, PartialEq, Eq)]
pub struct Release<P, C> {
    /// The packet to be taken back from the system, if there is one.
    pub cancel: Option<P>,
    /// The key of the entry to be posted to the completion port.
    pub completion_key: usize,
    /// The context of that entry.
    pub context: C,
}

impl<C> Timer<C> {
    /// Whether the timer has fired since the last firing that was seen.
    pub open spec fn has_unseen_firing<T, W, P>(self, state: SharedTimerState<T, W, P>) -> bool {
        state.fired_counter != self.last_fired
    }

    /// The timer after a poll, which sees all firings.
    pub open spec fn after_poll<T, W, P>(self, state: SharedTimerState<T, W, P>) -> Self {
        Timer { last_fired: state.fired_counter, ..self }
    }

    /// The timer that has not seen any firing.
    pub open spec fn after_clear(self) -> Self {
        Timer { last_fired: None, ..self }
    }

    /// The timer whose packet has been associated. If it had been signaled by then, it has fired.
    pub fn new<T, W, P>(
        state: &mut SharedTimerState<T, W, P>,
        context: C,
        already_signaled: bool,
    ) -> (timer: Timer<C>)
        requires
            already_signaled ==> firings(old(state).fired_counter) <= usize::MAX,
        ensures
            timer == (Timer { context, last_fired: None }),
            *final(state) == if already_signaled {
                old(state).after_firing()
            } else {
                *old(state)
            },
    {
        if already_signaled {
            state.fired();
        }
        Timer { context, last_fired: None }
    }

    /// Forgets the firings so far, seen or not, and the task that waits for one. Firings that are
    /// still to be reported are those of a generation that is over.
    pub fn clear<T, W, P>(&mut self, state: &mut SharedTimerState<T, W, P>)
        ensures
            *final(self) == old(self).after_clear(),
            *final(state) == old(state).after_clear(),
    {
        state.waker = None;
        state.fired_counter = None;
        state.generation = if state.generation <= usize::MAX - 2 {
            state.generation + 2
        } else {
            0
        };
        self.last_fired = None;
    }

    /// Says whether the timer has fired since the last firing that was seen. If it has not, the
    /// waker will be woken when it does.
    pub fn poll<T, W, P>(&mut self, state: &mut SharedTimerState<T, W, P>, waker: W) -> (answer:
        Poll<()>)
        ensures
            answer == (if old(self).has_unseen_firing(*old(state)) {
                Poll::Ready(())
            } else {
                Poll::Pending
            }),
            *final(self) == old(self).after_poll(*old(state)),
            *final(state) == old(state).after_poll(waker),
    {
        state.waker = Some(waker);
        let unseen: bool = match (state.fired_counter, self.last_fired) {
            (None, None) => false,
            (Some(fired), Some(seen)) => fired != seen,
            _ => true,
        };
        if unseen {
            self.last_fired = state.fired_counter;
            return Poll::Ready(());
        }
        Poll::Pending
    }

    /// What is to be done before [`Timer::release`]: the timer is stopped, as far as that can be
    /// done.
    pub fn stop() -> (steps: Vec<Step<Op>>)
        ensures
            steps@ == seq![cancel_timer_step()],
    {
        one(cancel_timer())
    }

    /// Gives the timer up, once it was stopped. The packet is to be taken back, and after that the
    /// background thread is to be told, by an entry of its own, that the context can be freed.
    pub fn release<T, W, P>(self, state: &mut SharedTimerState<T, W, P>) -> (release: Release<P, C>)
        ensures
            release == (Release {
                cancel: old(state).wait_completion_packet,
                completion_key: BackgroundTimerThread::DROP_KEY,
                context: self.context,
            }),
            *final(state) == (SharedTimerState {
                wait_completion_packet: None::<P>,
                ..*old(state)
            }),
    {
        let cancel: Option<P> = state.wait_completion_packet.take();
        Release { cancel, completion_key: BackgroundTimerThread::DROP_KEY, context: self.context }
    }
}

/// The timers of Windows, which always track sleep.
pub struct Windows;

impl Backend for Windows {
    type Op = Op;

    open spec fn create_steps(track: bool) -> Seq<Step<Op>> {
        seq![
            Step::must(
                Op::CreateTimer {
                    high_resolution: true,
                    access: TimerAccess {
                        modify_state: true,
                        query_state: true,
                        synchronize: true,
                    },
                },
            ),
            Step::must(Op::CreatePacket),
            Step::must(Op::AssociatePacket),
        ]
    }

    /// The completion port watches the timer from the start.
    open spec fn register_steps() -> Seq<Step<Op>> {
        Seq::empty()
    }

    /// That the timer or its packet cannot be canceled is no failure: firings of the generation
    /// that is over wake nobody.
    open spec fn clear_steps() -> Seq<Step<Op>> {
        seq![
            cancel_timer_step(),
            Step::must(Op::ClearState),
            Step::Call { op: Op::CancelPacket, on_error: OnError::Ignore },
        ]
    }

    open spec fn one_shot_steps(track: bool, nanos: nat) -> Seq<Step<Op>> {
        seq![set_timer_step(nanos, None)]
    }

    open spec fn interval_steps(track: bool, nanos: nat) -> Seq<Step<Op>> {
        seq![set_timer_step(nanos, Some(nanos))]
    }

    /// The packet is associated again, by the generation that has begun. The timer has been set by
    /// then, so that it is not signaled any more from before.
    open spec fn watch_again_steps() -> Seq<Step<Op>> {
        seq![Step::must(Op::AssociatePacket)]
    }

    fn create(track: bool) -> (steps: Vec<Step<Op>>) {
        let mut steps: Vec<Step<Op>> = Vec::new();
        steps.push(new_timer());
        steps.push(Step::Call { op: Op::CreatePacket, on_error: OnError::Fail });
        steps.push(Step::Call { op: Op::AssociatePacket, on_error: OnError::Fail });
        steps
    }

    fn register() -> (steps: Vec<Step<Op>>) {
        Vec::new()
    }

    fn clear() -> (steps: Vec<Step<Op>>) {
        let mut steps: Vec<Step<Op>> = Vec::new();
        steps.push(cancel_timer());
        steps.push(Step::Call { op: Op::ClearState, on_error: OnError::Fail });
        steps.push(Step::Call { op: Op::CancelPacket, on_error: OnError::Ignore });
        steps
    }

    fn one_shot(track: bool, duration: Duration) -> (steps: Vec<Step<Op>>) {
        one(set_timer(duration, None))
    }

    fn interval(track: bool, duration: Duration) -> (steps: Vec<Step<Op>>) {
        one(set_timer(duration, Some(duration)))
    }

    fn watch_again() -> (steps: Vec<Step<Op>>) {
        one(Step::Call { op: Op::AssociatePacket, on_error: OnError::Fail })
    }
}

impl DelayedStart for Windows {
    open spec fn interval_at_steps(track: bool, delay: nat, nanos: nat) -> Seq<Step<Op>> {
        seq![set_timer_step(delay, Some(nanos))]
    }

    fn interval_at(track: bool, delay_until_start: Duration, duration: Duration) -> (steps: Vec<
        Step<Op>,
    >) {
        one(set_timer(delay_until_start, Some(duration)))
    }
}

} // verus!
