//! The thread that takes the completions of all timers from the completion port.

use vstd::prelude::*;

use crate::windows;
use crate::windows::{Association, SharedTimerState};

verus! {

/// The background thread. It waits for entries, goes through those that it receives one by one, and
/// waits again.
///
/// The value says what the thread does at the moment. Entries are given by their place in the
/// buffer, below `count`.
#[derive(Clone, Copy, Debug, PartialEq, Eq, Structural)]
pub enum BackgroundTimerThread {
    /// It waits for entries, without a limit of time.
    Waiting,
    /// It looks at an entry.
    Examining { index: usize, count: usize },
    /// It frees the context of an entry.
    Freeing { index: usize, count: usize },
    /// It looks up the state of the timer that has fired, by the context, which is kept.
    LookingUp { index: usize, count: usize },
    /// It has locked that state, calls [`SharedTimerState::deliver`] and wakes the task if the
    /// firing counts.
    Delivering { index: usize, count: usize },
    /// It associates the timer's packet again, with the same context, and calls
    /// [`SharedTimerState::reassociated`].
    Reassociating { index: usize, count: usize },
    /// It has ended.
    Stopped,
}

/// An entry that was taken from the completion port.
#[derive(Clone, Copy, Debug, PartialEq, Eq, Structural)]
pub struct Entry {
    pub completion_key: usize,
    /// The address of the context, or 0 if there is none.
    pub overlapped: usize,
}

/// What the background thread learns from what it does.
#[derive(Clone, Copy, Debug, PartialEq, Eq, Structural)]
pub enum Event {
    /// There are entries.
    Received { num_entries: u32 },
    /// The wait has failed with the given code.
    WaitFailed { code: i32 },
    /// The entry is the given one.
    Examined(Entry),
    /// The context is freed.
    Freed,
    /// The state was found, or the timer is gone.
    LookedUp { found: bool },
    /// The firing was delivered, and the packet is or is not to be associated again.
    Delivered { again: bool },
    /// An attempt to associate the packet again was made.
    Reassociated,
}

impl BackgroundTimerThread {
    /// The number of entries that are taken from the completion port at once.
    pub const OVERLAPPED_ENTRY_BUFFER_SIZE: usize = 64;

    /// The number of threads that are expected to use the completion port at the same time: the
    /// background thread, and one that makes or drops a timer.
    pub const NUM_THREADS: u32 = 2;

    /// The key of an entry that says that its context can be freed.
    pub const DROP_KEY: usize = 0xDEAD;

    /// Whether the place in the buffer is one.
    pub open spec fn wf(self) -> bool {
        match self {
            BackgroundTimerThread::Waiting | BackgroundTimerThread::Stopped => true,
            BackgroundTimerThread::Examining { index, count }
            | BackgroundTimerThread::Freeing { index, count }
            | BackgroundTimerThread::LookingUp { index, count }
            | BackgroundTimerThread::Delivering { index, count }
            | BackgroundTimerThread::Reassociating { index, count } => index < count
                <= Self::OVERLAPPED_ENTRY_BUFFER_SIZE,
        }
    }

    /// Whether `event` can be what the thread learns from what it does.
    pub open spec fn expects(self, event: Event) -> bool {
        match self {
            BackgroundTimerThread::Waiting => match event {
                Event::Received { num_entries } => num_entries
                    <= Self::OVERLAPPED_ENTRY_BUFFER_SIZE,
                _ => event is WaitFailed,
            },
            BackgroundTimerThread::Examining { .. } => event is Examined,
            BackgroundTimerThread::Freeing { .. } => event is Freed,
            BackgroundTimerThread::LookingUp { .. } => event is LookedUp,
            BackgroundTimerThread::Delivering { .. } => event is Delivered,
            BackgroundTimerThread::Reassociating { .. } => event is Reassociated,
            BackgroundTimerThread::Stopped => false,
        }
    }

    /// What the thread does when it is done with the entries before `index`.
    pub open spec fn at(index: int, count: usize) -> BackgroundTimerThread {
        if index < count {
            BackgroundTimerThread::Examining { index: index as usize, count }
        } else {
            BackgroundTimerThread::Waiting
        }
    }

    /// What the thread does after `event`; `abandoned` is the code that says that the completion
    /// port is closed.
    pub open spec fn after(self, event: Event, abandoned: i32) -> BackgroundTimerThread {
        match self {
            BackgroundTimerThread::Waiting => match event {
                Event::Received { num_entries } => Self::at(0, num_entries as usize),
                Event::WaitFailed { code } => if code == abandoned {
                    BackgroundTimerThread::Stopped
                } else {
                    BackgroundTimerThread::Waiting
                },
                _ => self,
            },
            BackgroundTimerThread::Examining { index, count } => match event {
                Event::Examined(entry) => if entry.overlapped == 0 {
                    Self::at(index + 1, count)
                } else if entry.completion_key == Self::DROP_KEY {
                    BackgroundTimerThread::Freeing { index, count }
                } else {
                    BackgroundTimerThread::LookingUp { index, count }
                },
                _ => self,
            },
            BackgroundTimerThread::LookingUp { index, count } => match event {
                Event::LookedUp { found: true } => BackgroundTimerThread::Delivering {
                    index,
                    count,
                },
                _ => Self::at(index + 1, count),
            },
            BackgroundTimerThread::Delivering { index, count } => match event {
                Event::Delivered { again: true } => BackgroundTimerThread::Reassociating {
                    index,
                    count,
                },
                _ => Self::at(index + 1, count),
            },
            BackgroundTimerThread::Freeing { index, count }
            | BackgroundTimerThread::Reassociating { index, count } => Self::at(index + 1, count),
            BackgroundTimerThread::Stopped => self,
        }
    }

    /// The thread at its start.
    pub fn start() -> (thread: BackgroundTimerThread)
        ensures
            thread == BackgroundTimerThread::Waiting,
    {
        BackgroundTimerThread::Waiting
    }

    fn next(index: usize, count: usize) -> (thread: BackgroundTimerThread)
        requires
            index <= count,
        ensures
            thread == Self::at(index as int, count),
    {
        if index < count {
            BackgroundTimerThread::Examining { index, count }
        } else {
            BackgroundTimerThread::Waiting
        }
    }

    /// Goes on after `event`. An error of the wait ends the thread only if its code is `abandoned`,
    /// which says that the completion port is closed.
    pub fn run(self, event: Event, abandoned: i32) -> (thread: BackgroundTimerThread)
        requires
            self.wf(),
            self.expects(event),
        ensures
            thread == self.after(event, abandoned),
            thread.wf(),
    {
        match (self, event) {
            (BackgroundTimerThread::Waiting, Event::Received { num_entries }) => Self::next(
                0,
                num_entries as usize,
            ),
            (BackgroundTimerThread::Waiting, Event::WaitFailed { code }) => if code == abandoned {
                BackgroundTimerThread::Stopped
            } else {
                BackgroundTimerThread::Waiting
            },
            (BackgroundTimerThread::Examining { index, count }, Event::Examined(entry)) => {
                if entry.overlapped == 0 {
                    Self::next(index + 1, count)
                } else if entry.completion_key == Self::DROP_KEY {
                    BackgroundTimerThread::Freeing { index, count }
                } else {
                    BackgroundTimerThread::LookingUp { index, count }
                }
            },
            (BackgroundTimerThread::LookingUp { index, count }, Event::LookedUp { found }) => {
                if found {
                    BackgroundTimerThread::Delivering { index, count }
                } else {
                    Self::next(index + 1, count)
                }
            },
            (BackgroundTimerThread::Delivering { index, count }, Event::Delivered { again }) => {
                if again {
                    BackgroundTimerThread::Reassociating { index, count }
                } else {
                    Self::next(index + 1, count)
                }
            },
            (BackgroundTimerThread::Freeing { index, count }, _) => Self::next(index + 1, count),
            (BackgroundTimerThread::Reassociating { index, count }, _) => Self::next(
                index + 1,
                count,
            ),
            (thread, _) => thread,
        }
    }
}

/// What follows from the report of a firing.
#[derive(Clone, Copy, Debug, PartialEq, Eq, Structural)]
pub struct Delivery {
    /// Whether the firing counts, so that the task that waits for it is to be woken.
    pub counts: bool,
    /// Whether the packet is to be associated again.
    pub again: bool,
}

impl<T, W, P> SharedTimerState<T, W, P> {
    /// What follows from an entry with the given completion key.
    pub open spec fn delivery(self, completion_key: usize) -> Delivery {
        Delivery {
            counts: completion_key == self.generation,
            again: completion_key == self.generation && self.wait_completion_packet is Some,
        }
    }

    /// Takes note that the timer has fired, if the firing counts: one that was reported by the
    /// completion key of an earlier generation does not.
    ///
    /// If it counts, the waker is to be woken; after that the packet, if there is one, is to be
    /// associated again, so that the next firing is reported too.
    pub fn deliver(&mut self, completion_key: usize) -> (delivery: Delivery)
        requires
            completion_key == old(self).generation ==> windows::firings(old(self).fired_counter)
                <= usize::MAX,
        ensures
            delivery == old(self).delivery(completion_key),
            delivery == (Delivery {
                counts: completion_key == old(self).generation,
                again: completion_key == old(self).generation && old(self).wait_completion_packet
                    is Some,
            }),
            *final(self) == old(self).after_entry(completion_key),
    {
        if completion_key != self.generation {
            return Delivery { counts: false, again: false };
        }
        self.fired();
        Delivery { counts: true, again: self.wait_completion_packet.is_some() }
    }

    /// Takes note of whether the timer had been signaled when its packet was associated again. If
    /// so, it has fired. Nobody needs to be woken for that: the background thread has just woken
    /// the task, which cannot poll before the state is unlocked, and on a reset no task waits.
    pub fn reassociated(&mut self, signaled: u8)
        requires
            signaled != 0 ==> windows::firings(old(self).fired_counter) <= usize::MAX,
        ensures
            *final(self) == if signaled != 0 {
                old(self).after_firing()
            } else {
                *old(self)
            },
    {
        if signaled != 0 {
            self.fired();
        }
    }
}

/// What the thread does with an entry, from the moment at which it looks at it.
pub struct Disposal {
    /// The thread frees the context.
    pub frees: bool,
    /// The thread looks the state up by the context.
    pub looks_up: bool,
    /// The thread delivers a firing.
    pub delivers: bool,
    /// The thread associates the packet again.
    pub reassociates: bool,
    /// What the thread does when it is done with the entry.
    pub done: BackgroundTimerThread,
}

impl BackgroundTimerThread {
    /// What becomes of `entry`, if its state is or is not found, and if the packet is or is not to
    /// be associated again.
    pub open spec fn disposal(
        index: usize,
        count: usize,
        entry: Entry,
        found: bool,
        again: bool,
        abandoned: i32,
    ) -> Disposal {
        let first = BackgroundTimerThread::Examining { index, count }.after(
            Event::Examined(entry),
            abandoned,
        );
        let second = if first is Freeing {
            first.after(Event::Freed, abandoned)
        } else if first is LookingUp {
            first.after(Event::LookedUp { found }, abandoned)
        } else {
            first
        };
        let third = if second is Delivering {
            second.after(Event::Delivered { again }, abandoned)
        } else {
            second
        };
        let fourth = if third is Reassociating {
            third.after(Event::Reassociated, abandoned)
        } else {
            third
        };
        Disposal {
            frees: first is Freeing,
            looks_up: first is LookingUp,
            delivers: second is Delivering,
            reassociates: third is Reassociating,
            done: fourth,
        }
    }
}

/// The thread frees the context of an entry exactly if the entry says so, and delivers a firing
/// exactly if the timer is still there; it associates the packet again exactly if
/// [`SharedTimerState::deliver`] asks for that. When it is done with the entry, it looks at the
/// next one, and waits only if that was the last.
pub proof fn law_every_entry_is_disposed_of(
    index: usize,
    count: usize,
    entry: Entry,
    found: bool,
    again: bool,
    abandoned: i32,
)
    requires
        index < count,
    ensures
        ({
            let disposal = BackgroundTimerThread::disposal(
                index,
                count,
                entry,
                found,
                again,
                abandoned,
            );
            let tells_to_free = entry.completion_key == BackgroundTimerThread::DROP_KEY;
            &&& disposal.frees == (entry.overlapped != 0 && tells_to_free)
            &&& disposal.looks_up == (entry.overlapped != 0 && !tells_to_free)
            &&& disposal.delivers == (disposal.looks_up && found)
            &&& disposal.reassociates == (disposal.delivers && again)
            &&& index + 1 < count ==> disposal.done == (BackgroundTimerThread::Examining {
                index: (index + 1) as usize,
                count,
            })
            &&& index + 1 == count ==> disposal.done == BackgroundTimerThread::Waiting
        }),
{
}

impl BackgroundTimerThread {
    /// The entry that the thread is at, and the number of entries, if it is at one.
    pub open spec fn place(self) -> Option<(usize, usize)> {
        match self {
            BackgroundTimerThread::Waiting | BackgroundTimerThread::Stopped => None,
            BackgroundTimerThread::Examining { index, count }
            | BackgroundTimerThread::Freeing { index, count }
            | BackgroundTimerThread::LookingUp { index, count }
            | BackgroundTimerThread::Delivering { index, count }
            | BackgroundTimerThread::Reassociating { index, count } => Some((index, count)),
        }
    }
}

/// Whether `states` are what the thread does one after the other as it learns `events`.
pub open spec fn is_run(
    states: Seq<BackgroundTimerThread>,
    events: Seq<Event>,
    abandoned: i32,
) -> bool {
    &&& states.len() == events.len() + 1
    &&& forall|i: int|
        #![trigger states[i]]
        0 <= i < events.len() ==> states[i].wf() && states[i].expects(events[i]) && call_ensures(
            BackgroundTimerThread::run,
            (states[i], events[i], abandoned),
            states[i + 1],
        )
}

/// Whether the thread has looked at the entry `index` of `count` in one of the states before the
/// `n`-th.
pub open spec fn has_examined(
    states: Seq<BackgroundTimerThread>,
    n: int,
    index: usize,
    count: usize,
) -> bool {
    exists|i: int|
        0 <= i < n && #[trigger] states[i] == (BackgroundTimerThread::Examining { index, count })
}

/// A batch of entries, from the state in which it was received: as long as the thread has not come
/// to wait again, it is at one of the entries, and has looked at all entries up to that.
proof fn lemma_batch(
    states: Seq<BackgroundTimerThread>,
    events: Seq<Event>,
    abandoned: i32,
    count: usize,
    n: int,
)
    requires
        is_run(states, events, abandoned),
        states[0] is Waiting,
        events.len() > 0,
        events[0] matches Event::Received { num_entries } && num_entries == count,
        1 <= n < states.len(),
        forall|i: int| 1 <= i < n ==> !(#[trigger] states[i] is Waiting),
    ensures
        states[n] is Waiting || (states[n].place() matches Some((at, total)) && total == count && at
            < count),
        states[n] is Waiting ==> forall|index: usize|
            index < count ==> #[trigger] has_examined(states, n + 1, index, count),
        states[n].place() matches Some((at, _)) ==> forall|index: usize|
            index <= at ==> #[trigger] has_examined(states, n + 1, index, count),
    decreases n,
{
    let before = states[n - 1];
    assert(before.wf());
    if n == 1 {
        assert(states[0] is Waiting);
        if count > 0 {
            assert(states[1] == (BackgroundTimerThread::Examining { index: 0, count }));
            assert(has_examined(states, 2, 0, count));
        }
    } else {
        lemma_batch(states, events, abandoned, count, n - 1);
        assert(!(before is Waiting));
        let (at, _) = before.place()->0;
        assert forall|index: usize| index <= at implies #[trigger] has_examined(
            states,
            n + 1,
            index,
            count,
        ) by {
            assert(has_examined(states, n, index, count));
            let i = choose|i: int|
                0 <= i < n && #[trigger] states[i] == (BackgroundTimerThread::Examining {
                    index,
                    count,
                });
            assert(states[i] == (BackgroundTimerThread::Examining { index, count }));
        }
        if states[n] is Examining {
            let (next, _) = states[n].place()->0;
            assert(states[n] == (BackgroundTimerThread::Examining { index: next, count }));
            assert(has_examined(states, n + 1, next, count));
        }
    }
}

/// Before the thread waits again it has looked at each entry of a batch, however many there are,
/// and whatever it learns of each.
pub proof fn law_every_entry_of_a_batch_is_looked_at(
    states: Seq<BackgroundTimerThread>,
    events: Seq<Event>,
    abandoned: i32,
    count: usize,
    index: usize,
    n: int,
)
    requires
        is_run(states, events, abandoned),
        states[0] is Waiting,
        events.len() > 0,
        events[0] matches Event::Received { num_entries } && num_entries == count,
        index < count,
        1 <= n < states.len(),
        states[n] is Waiting,
        forall|i: int| 1 <= i < n ==> !(#[trigger] states[i] is Waiting),
    ensures
        exists|i: int|
            1 <= i < n && #[trigger] states[i] == (BackgroundTimerThread::Examining {
                index,
                count,
            }),
{
    lemma_batch(states, events, abandoned, count, n);
    assert(has_examined(states, n + 1, index, count));
    let i = choose|i: int|
        0 <= i < n + 1 && #[trigger] states[i] == (BackgroundTimerThread::Examining {
            index,
            count,
        });
    assert(states[i] == (BackgroundTimerThread::Examining { index, count }));
}

/// From an entry the thread goes to the next one, or waits if it was the last: it leaves none out,
/// looks at none twice, and keeps to the number of entries that it received. A firing that is to be
/// delivered, and a packet that is to be associated again, comes before that.
pub proof fn law_thread_goes_from_entry_to_entry(
    thread: BackgroundTimerThread,
    event: Event,
    abandoned: i32,
    next: BackgroundTimerThread,
)
    requires
        thread.wf(),
        thread.expects(event),
        thread.place() is Some,
        call_ensures(BackgroundTimerThread::run, (thread, event, abandoned), next),
    ensures
        ({
            let (index, count) = thread.place()->0;
            let stays = match event {
                Event::Examined(entry) => entry.overlapped != 0,
                Event::LookedUp { found } => found,
                Event::Delivered { again } => again,
                _ => false,
            };
            &&& stays ==> next.place() == Some((index, count)) && !(next is Examining)
            &&& !stays && index + 1 < count ==> next == (BackgroundTimerThread::Examining {
                index: (index + 1) as usize,
                count,
            })
            &&& !stays && index + 1 == count ==> next == BackgroundTimerThread::Waiting
        }),
        match event {
            Event::Examined(entry) => {
                let tells_to_free = entry.completion_key == BackgroundTimerThread::DROP_KEY;
                &&& next is Freeing <==> entry.overlapped != 0 && tells_to_free
                &&& next is LookingUp <==> entry.overlapped != 0 && !tells_to_free
            },
            _ => true,
        },
        event == (Event::LookedUp { found: true }) ==> next is Delivering,
        event == (Event::Delivered { again: true }) ==> next is Reassociating,
{
}

/// The thread can go on after anything that it can learn: any number of entries that there is room
/// for, any failure of the wait, any entry, and whatever comes of it.
pub proof fn law_thread_copes_with_what_it_learns(thread: BackgroundTimerThread, event: Event)
    requires
        thread.place() matches Some((index, count)) ==> index < count <= 64,
        match event {
            Event::Received { num_entries } => thread is Waiting && num_entries <= 64,
            Event::WaitFailed { .. } => thread is Waiting,
            Event::Examined(_) => thread is Examining,
            Event::Freed => thread is Freeing,
            Event::LookedUp { .. } => thread is LookingUp,
            Event::Delivered { .. } => thread is Delivering,
            Event::Reassociated => thread is Reassociating,
        },
    ensures
        thread.wf(),
        thread.expects(event),
{
}

/// A wait that failed is repeated, unless the completion port is closed. One that ended without
/// entries is repeated too, and with entries the first of them is looked at.
pub proof fn law_thread_goes_on_after_a_wait(
    thread: BackgroundTimerThread,
    event: Event,
    abandoned: i32,
    next: BackgroundTimerThread,
)
    requires
        thread is Waiting,
        thread.expects(event),
        call_ensures(BackgroundTimerThread::run, (thread, event, abandoned), next),
    ensures
        event matches Event::WaitFailed { code } ==> (next is Stopped <==> code == abandoned) && (
        next is Waiting <==> code != abandoned),
        event matches Event::Received { num_entries } ==> (next is Waiting <==> num_entries == 0)
            && (num_entries > 0 ==> next is Examining && next.place() == Some(
            (0usize, num_entries as usize),
        )),
{
}

/// If the packet is to be associated again after an entry, it is associated by what the entry came
/// with: the same completion key and the same context.
pub proof fn law_entry_is_associated_again_as_it_came<T, W, P>(
    state: SharedTimerState<T, W, P>,
    entry: Entry,
)
    requires
        entry.completion_key == state.generation,
    ensures
        state.after_entry(entry.completion_key).associated_by(entry.overlapped) == (Association {
            completion_key: entry.completion_key,
            context: entry.overlapped,
        }),
{
}

/// The thread ends only when the completion port is closed.
pub proof fn law_thread_ends_only_with_its_port(
    thread: BackgroundTimerThread,
    event: Event,
    abandoned: i32,
)
    requires
        thread.wf(),
        thread.expects(event),
    ensures
        thread.after(event, abandoned) is Stopped <==> thread is Waiting && event
            == (Event::WaitFailed { code: abandoned }),
{
}

} // verus!
