//! What polls see of a timer's firings.

use vstd::prelude::*;

use crate::windows;
use crate::windows::background::BackgroundTimerThread;
use crate::windows::{SharedTimerState, Timer};

verus! {

/// What can happen to a timer.
pub enum Event<W> {
    /// A firing of it is reported by the given completion key.
    Reported(usize),
    /// It is polled by the task of the given waker.
    Polled(W),
    /// It is cleared.
    Cleared,
}

/// A timer and the state that it shares.
pub struct Pair<C, T, W, P> {
    pub timer: Timer<C>,
    pub state: SharedTimerState<T, W, P>,
}

impl<C, T, W, P> Pair<C, T, W, P> {
    /// Whether the timer is new: it has not fired yet, nor been polled.
    pub open spec fn fresh(self) -> bool {
        self.timer.last_fired is None && self.state.fired_counter is None && self.state.waker
            is None
    }

    /// The timer and its state after `event`.
    pub open spec fn after(self, event: Event<W>) -> Self {
        match event {
            Event::Reported(completion_key) => Pair {
                state: self.state.after_entry(completion_key),
                ..self
            },
            Event::Polled(waker) => Pair {
                timer: self.timer.after_poll(self.state),
                state: self.state.after_poll(waker),
            },
            Event::Cleared => Pair {
                timer: self.timer.after_clear(),
                state: self.state.after_clear(),
            },
        }
    }

    /// The timer and its state after all of `events`.
    pub open spec fn replay(self, events: Seq<Event<W>>) -> Self
        decreases events.len(),
    {
        if events.len() == 0 {
            self
        } else {
            self.replay(events.drop_last()).after(events.last())
        }
    }

    /// Whether a poll would now find that the timer has fired.
    pub open spec fn ready(self) -> bool {
        self.timer.has_unseen_firing(self.state)
    }

    /// Whether one of `events` is a firing that counts, and the timer was neither polled nor
    /// cleared after it.
    pub open spec fn fires_last(self, events: Seq<Event<W>>) -> bool
        decreases events.len(),
    {
        events.len() > 0 && match events.last() {
            Event::Reported(completion_key) => {
                ||| completion_key == self.replay(events.drop_last()).state.generation
                ||| self.fires_last(events.drop_last())
            },
            _ => false,
        }
    }
}

proof fn lemma_counters<C, T, W, P>(pair: Pair<C, T, W, P>, events: Seq<Event<W>>)
    requires
        pair.fresh(),
        events.len() <= usize::MAX,
    ensures
        ({
            let now = pair.replay(events);
            let seen = windows::firings(now.timer.last_fired);
            let fired = windows::firings(now.state.fired_counter);
            &&& seen <= fired <= events.len()
            &&& seen < fired <==> pair.fires_last(events)
        }),
    decreases events.len(),
{
    if events.len() > 0 {
        lemma_counters(pair, events.drop_last());
    }
}

/// A poll finds that the timer has fired exactly if it has fired since it was last polled or
/// cleared, or since it was made: a firing is not lost before a task awaits it, is not seen twice,
/// and is not seen after the timer was cleared. Firings that were missed are seen as one.
pub proof fn law_poll_sees_each_firing_once<C, T, W, P>(
    pair: Pair<C, T, W, P>,
    events: Seq<Event<W>>,
)
    requires
        pair.fresh(),
        events.len() <= usize::MAX,
    ensures
        pair.replay(events).ready() <==> pair.fires_last(events),
{
    lemma_counters(pair, events);
}

/// A task that has been told to wait is there to be woken by the next firing, unless the timer is
/// cleared before.
pub proof fn law_waiting_task_is_woken<C, T, W, P>(
    pair: Pair<C, T, W, P>,
    events: Seq<Event<W>>,
    waker: W,
    more: Seq<Event<W>>,
)
    requires
        forall|i: int| 0 <= i < more.len() ==> #[trigger] more[i] is Reported,
    ensures
        pair.replay(events.push(Event::Polled(waker)) + more).state.waker == Some(waker),
    decreases more.len(),
{
    let polled = events.push(Event::Polled(waker));
    if more.len() == 0 {
        assert(polled + more =~= polled);
        assert(polled.drop_last() =~= events);
    } else {
        law_waiting_task_is_woken(pair, events, waker, more.drop_last());
        assert((polled + more).drop_last() =~= polled + more.drop_last());
        assert((polled + more).last() == more.last());
        assert(more[more.len() - 1] is Reported);
    }
}

/// A timer that has been cleared wakes nobody until it is polled again.
pub proof fn law_cleared_timer_wakes_nobody<C, T, W, P>(
    pair: Pair<C, T, W, P>,
    events: Seq<Event<W>>,
    more: Seq<Event<W>>,
)
    requires
        forall|i: int| 0 <= i < more.len() ==> #[trigger] more[i] is Reported,
    ensures
        pair.replay(events.push(Event::Cleared) + more).state.waker is None,
    decreases more.len(),
{
    let cleared = events.push(Event::Cleared);
    if more.len() == 0 {
        assert(cleared + more =~= cleared);
        assert(cleared.drop_last() =~= events);
    } else {
        law_cleared_timer_wakes_nobody(pair, events, more.drop_last());
        assert((cleared + more).drop_last() =~= cleared + more.drop_last());
        assert((cleared + more).last() == more.last());
        assert(more[more.len() - 1] is Reported);
    }
}

/// The generation of a timer that was cleared `n` times after the given one.
pub open spec fn generation_after(generation: usize, n: nat) -> usize
    decreases n,
{
    if n == 0 {
        generation
    } else {
        windows::next_generation(generation_after(generation, (n - 1) as nat))
    }
}

proof fn lemma_generation_after(generation: usize, n: nat)
    requires
        generation % 2 == 0,
        n <= usize::MAX / 2,
    ensures
        ({
            let ahead = generation + 2 * n;
            let later = generation_after(generation, n);
            &&& later % 2 == 0
            &&& later == if ahead <= usize::MAX {
                ahead
            } else {
                ahead - 2 * (usize::MAX / 2 + 1)
            }
        }),
    decreases n,
{
    if n > 0 {
        lemma_generation_after(generation, (n - 1) as nat);
    }
}

/// An entry that was on its way when the timer was cleared changes nothing when it is read: as long
/// as the timer is not cleared half as often as there are completion keys meanwhile, the entry is
/// of another generation than the state.
pub proof fn law_entry_from_before_a_clear_is_ignored<T, W, P>(
    before: SharedTimerState<T, W, P>,
    n: nat,
    now: SharedTimerState<T, W, P>,
)
    requires
        before.generation % 2 == 0,
        0 < n <= usize::MAX / 2,
        now.generation == generation_after(before.generation, n),
    ensures
        now.after_entry(before.generation) == now,
{
    lemma_generation_after(before.generation, n);
}

/// Generations are even, and so none is taken for the key that says that a context can be freed.
pub proof fn law_generation_is_not_the_drop_key(generation: usize)
    requires
        generation % 2 == 0,
    ensures
        windows::next_generation(generation) % 2 == 0,
        generation != BackgroundTimerThread::DROP_KEY,
{
}

/// Whatever happens to a timer, as long as it is not released it keeps the system's timer, the
/// packet and the context that it was made with.
pub proof fn law_timer_keeps_what_it_was_made_with<C, T, W, P>(
    pair: Pair<C, T, W, P>,
    events: Seq<Event<W>>,
)
    ensures
        pair.replay(events).state.timer == pair.state.timer,
        pair.replay(events).state.wait_completion_packet == pair.state.wait_completion_packet,
        pair.replay(events).timer.context == pair.timer.context,
    decreases events.len(),
{
    if events.len() > 0 {
        law_timer_keeps_what_it_was_made_with(pair, events.drop_last());
    }
}

/// Whatever has happened to a timer that has a packet, however often it was cleared and set anew:
/// after each firing that counts its packet is associated again, so that the next is reported too.
pub proof fn law_each_firing_that_counts_is_followed_by_an_association<C, T, W, P>(
    pair: Pair<C, T, W, P>,
    events: Seq<Event<W>>,
    completion_key: usize,
)
    requires
        pair.state.wait_completion_packet is Some,
        completion_key == pair.replay(events).state.generation,
    ensures
        pair.replay(events).state.delivery(completion_key).counts,
        pair.replay(events).state.delivery(completion_key).again,
        pair.replay(events.push(Event::Reported(completion_key))).state.associated_by(
            pair.timer.context,
        ).completion_key == completion_key,
{
    law_timer_keeps_what_it_was_made_with(pair, events);
    assert(events.push(Event::Reported(completion_key)).drop_last() =~= events);
}

} // verus!
