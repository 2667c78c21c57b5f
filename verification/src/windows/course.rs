//! How the firings of a timer come to be seen by polls.
//!
//! A timer that comes due makes the system add an entry to the completion port, the background
//! thread reads the entry and takes note of the firing, and a poll sees that. Meanwhile the timer
//! can be cleared and set anew.

use vstd::prelude::*;

use crate::countdown::Countdown;
use crate::schedule::Program;
use crate::windows;
use crate::windows::firing::{Event, Pair};

verus! {

/// A timer, from the system's clock to what polls see of it.
pub struct Course<C, T, W, P> {
    /// What the system's timer was told, and how far it is.
    pub countdown: Countdown,
    /// Whether the timer has been set since it was made or cleared last.
    pub armed: bool,
    /// The completion key with which the packet is associated, if it is.
    pub association: Option<usize>,
    /// The completion keys of the entries that the background thread has not read yet, in order.
    pub queue: Seq<usize>,
    /// The timer and the state that it shares.
    pub pair: Pair<C, T, W, P>,
    /// The system's timer at the moment at which it was found due last, as far as that counts: by a
    /// packet that was associated since the timer was cleared.
    pub came_due: Option<Countdown>,
}

impl<C, T, W, P> Course<C, T, W, P> {
    /// The completion key of the firings that count.
    pub open spec fn generation(self) -> usize {
        self.pair.state.generation
    }

    /// A timer that has just been made, with its packet associated, and not been set.
    pub open spec fn begins(self) -> bool {
        &&& self.countdown.program is None
        &&& !self.armed
        &&& self.generation() == 0
        &&& self.association == Some(0usize)
        &&& self.queue.len() == 0
        &&& self.pair.fresh()
        &&& self.pair.state.wait_completion_packet is Some
        &&& self.came_due is None
    }

    /// Time passes.
    pub open spec fn passes(self, post: Self) -> bool {
        &&& self.countdown.passes(post.countdown)
        &&& post == (Course { countdown: post.countdown, ..self })
    }

    /// The timer is due, and the system adds an entry. That ends the association.
    pub open spec fn reports(self, post: Self) -> bool {
        &&& self.association is Some
        &&& self.countdown.due()
        &&& post == (Course {
            countdown: self.countdown.notice(),
            association: None,
            queue: self.queue.push(self.association->0),
            came_due: if self.association->0 == self.generation() {
                Some(self.countdown)
            } else {
                self.came_due
            },
            ..self
        })
    }

    /// The packet is associated. If the timer is due by then, it has been signaled, and that counts
    /// as a firing; the system may or may not add an entry for it as well.
    pub open spec fn associates(self, post: Self) -> bool {
        let handed = self.pair.state.associated_by(self.pair.timer.context);
        let associated = Course { association: Some(handed.completion_key), ..self };
        &&& self.association is None
        &&& if self.countdown.due() {
            let fired = Course {
                countdown: self.countdown.notice(),
                pair: Pair { state: self.pair.state.after_firing(), ..self.pair },
                came_due: Some(self.countdown),
                ..associated
            };
            ||| post == fired
            ||| post == (Course {
                association: None,
                queue: self.queue.push(self.generation()),
                ..fired
            })
        } else {
            post == associated
        }
    }

    /// The background thread reads the first entry. If that asks for it, it tries to associate the
    /// packet again, which can fail.
    pub open spec fn delivers(self, post: Self) -> bool {
        let read = Course {
            queue: self.queue.drop_first(),
            pair: self.pair.after(Event::Reported(self.queue[0])),
            ..self
        };
        &&& self.queue.len() > 0
        &&& {
            ||| post == read
            ||| self.pair.state.delivery(self.queue[0]).again && read.associates(post)
        }
    }

    /// The timer is polled by the task of `waker`.
    pub open spec fn is_polled(self, waker: W, post: Self) -> bool {
        post == (Course { pair: self.pair.after(Event::Polled(waker)), ..self })
    }

    /// The timer is cleared. The system's timer may or may not be canceled.
    pub open spec fn is_cleared(self, post: Self) -> bool {
        &&& post.countdown == self.countdown || post.countdown == self.countdown.set(None)
        &&& post == (Course {
            countdown: post.countdown,
            armed: false,
            pair: self.pair.after(Event::Cleared),
            came_due: None,
            ..self
        })
    }

    /// The packet is taken back after the timer was cleared, and with it an entry that is on its
    /// way, or none.
    pub open spec fn is_unwatched(self, post: Self) -> bool {
        &&& !self.armed
        &&& {
            ||| post.queue == self.queue
            ||| exists|i: int|
                0 <= i < self.queue.len() && post.queue == #[trigger] self.queue.remove(i)
        }
        &&& post == (Course { association: None, queue: post.queue, ..self })
    }

    /// The timer is set, for the first time since it was made or cleared.
    pub open spec fn is_set(self, program: Program, post: Self) -> bool {
        &&& !self.armed
        &&& post == (Course { countdown: self.countdown.set(Some(program)), armed: true, ..self })
    }

    /// The packet is associated again after the timer was cleared and set.
    pub open spec fn is_watched_again(self, post: Self) -> bool {
        self.armed && self.associates(post)
    }

    /// Whether something happens that leads to `post`.
    pub open spec fn steps(self, post: Self) -> bool {
        ||| self.passes(post)
        ||| self.reports(post)
        ||| self.delivers(post)
        ||| exists|waker: W| #[trigger] self.is_polled(waker, post)
        ||| self.is_cleared(post)
        ||| self.is_unwatched(post)
        ||| exists|program: Program| #[trigger] self.is_set(program, post)
        ||| self.is_watched_again(post)
    }

    /// Whether the counters are as they can be after `n` events.
    pub open spec fn counts(self, n: nat) -> bool {
        &&& self.generation() <= 2 * n
        &&& windows::firings(self.pair.timer.last_fired) <= windows::firings(
            self.pair.state.fired_counter,
        ) <= 2 * n
    }

    /// What is true at any time: there is a firing that counts, read or not, only if the timer came
    /// due by what it was told since it was cleared.
    pub open spec fn inv(self) -> bool {
        &&& self.pair.state.wait_completion_packet is Some
        &&& self.association is Some ==> self.association->0 <= self.generation()
        &&& forall|i: int|
            0 <= i < self.queue.len() ==> #[trigger] self.queue[i] <= self.generation() && (
            self.queue[i] == self.generation() ==> self.came_due is Some)
        &&& self.pair.ready() ==> self.came_due is Some
        &&& self.came_due is Some ==> self.armed && self.came_due->0.due()
            && self.came_due->0.program == self.countdown.program && self.came_due->0.set_at
            == self.countdown.set_at
        &&& !self.armed && self.association == Some(self.generation())
            ==> self.countdown.program is None
    }
}

/// Whether `states` is a possible course of events, from the moment at which the timer was made.
pub open spec fn is_course<C, T, W, P>(states: Seq<Course<C, T, W, P>>) -> bool {
    &&& states.len() > 0
    &&& states[0].begins()
    &&& forall|i: int|
        #![trigger states[i]]
        0 <= i < states.len() - 1 ==> states[i].steps(states[i + 1])
}

proof fn lemma_step_keeps_invariant<C, T, W, P>(
    pre: Course<C, T, W, P>,
    post: Course<C, T, W, P>,
    n: nat,
)
    requires
        n < usize::MAX / 2,
        pre.counts(n),
        pre.inv(),
        pre.steps(post),
    ensures
        post.counts(n + 1),
        post.inv(),
{
    if pre.is_unwatched(post) && post.queue != pre.queue {
        let i = choose|i: int|
            0 <= i < pre.queue.len() && post.queue == #[trigger] pre.queue.remove(i);
        assert forall|j: int| 0 <= j < post.queue.len() implies #[trigger] post.queue[j]
            <= post.generation() && (post.queue[j] == post.generation() ==> post.came_due
            is Some) by {
            let k = if j < i {
                j
            } else {
                j + 1
            };
            assert(post.queue[j] == pre.queue[k]);
        }
    }
}

proof fn lemma_invariant<C, T, W, P>(states: Seq<Course<C, T, W, P>>, i: int)
    requires
        is_course(states),
        states.len() <= usize::MAX / 2,
        0 <= i < states.len(),
    ensures
        states[i].counts(i as nat),
        states[i].inv(),
    decreases i,
{
    if i > 0 {
        lemma_invariant(states, i - 1);
        lemma_step_keeps_invariant(states[i - 1], states[i], (i - 1) as nat);
    }
}

/// A poll finds that the timer has fired only if the timer came due by what it was told last: by
/// the program that it follows now, since the moment at which it was told to. This holds for any
/// course that is not as long as half the completion keys.
pub proof fn law_poll_is_ready_only_if_due<C, T, W, P>(states: Seq<Course<C, T, W, P>>, i: int)
    requires
        is_course(states),
        states.len() <= usize::MAX / 2,
        0 <= i < states.len(),
        states[i].pair.ready(),
    ensures
        states[i].came_due matches Some(then) && then.due() && then.program
            == states[i].countdown.program && then.set_at == states[i].countdown.set_at,
{
    lemma_invariant(states, i);
}

/// A poll does not find that a timer has fired that was cleared and has not been set since,
/// whatever entries were on their way when it was cleared.
pub proof fn law_cleared_timer_has_no_pending_wakeups<C, T, W, P>(
    states: Seq<Course<C, T, W, P>>,
    i: int,
)
    requires
        is_course(states),
        states.len() <= usize::MAX / 2,
        0 <= i < states.len(),
        !states[i].armed,
    ensures
        !states[i].pair.ready(),
{
    lemma_invariant(states, i);
}

/// A firing that counts can always be followed by another: when the background thread reads its
/// entry, however often the timer was cleared before, the packet can be associated again, so that
/// the next firing counts too; and a poll finds that the timer has fired.
pub proof fn law_next_firing_is_heard_of_too<C, T, W, P>(states: Seq<Course<C, T, W, P>>, i: int)
    requires
        is_course(states),
        states.len() <= usize::MAX / 2,
        0 <= i < states.len(),
        states[i].queue.len() > 0,
        states[i].queue[0] == states[i].generation(),
        states[i].association is None,
    ensures
        exists|post: Course<C, T, W, P>| #[trigger]
            states[i].delivers(post) && post.association == Some(states[i].generation())
                && post.generation() == states[i].generation() && post.pair.ready(),
{
    lemma_invariant(states, i);
    let now = states[i];
    let read = Course {
        queue: now.queue.drop_first(),
        pair: now.pair.after(Event::Reported(now.queue[0])),
        ..now
    };
    let associated = Course { association: Some(now.generation()), ..read };
    let post = if read.countdown.due() {
        Course {
            countdown: read.countdown.notice(),
            pair: Pair { state: read.pair.state.after_firing(), ..read.pair },
            came_due: Some(read.countdown),
            ..associated
        }
    } else {
        associated
    };
    assert(read.associates(post));
    assert(now.delivers(post));
}

} // verus!
