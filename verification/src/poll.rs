//! What a poll of a future or a stream answers.

use vstd::prelude::*;

verus! {

/// The answer of a poll.
#[derive(Debug, PartialEq, Eq)]
pub enum Poll<T> {
    /// What was awaited is there.
    Ready(T),
    /// It is not there yet; the task will be woken.
    Pending,
}

/// What the reactor says of a timer.
#[derive(Debug, PartialEq, Eq)]
pub enum Readiness<E> {
    /// The timer may have fired.
    Readable,
    /// The timer has not fired; the reactor will wake the task.
    NotReady,
    /// The reactor failed.
    Failed(E),
}

/// How an attempt to take note of a timer's firing ended.
#[derive(Debug, PartialEq, Eq)]
pub enum Attempt<E> {
    /// The timer had fired.
    Fired,
    /// The timer had not fired.
    WouldBlock,
    /// The attempt failed.
    Failed(E),
}

/// What a poll does next.
#[derive(Debug, PartialEq, Eq)]
pub enum Next<E> {
    /// Ask the reactor whether the timer may have fired.
    AskReactor,
    /// Try to take note of a firing.
    Attempt,
    /// Answer.
    Return(Poll<Result<(), E>>),
}

/// One question to the reactor together with one attempt, in the order in which a poll makes them.
pub struct Round<E> {
    pub readiness: Readiness<E>,
    pub attempt: Attempt<E>,
}

impl<E> Round<E> {
    /// Whether nothing came of the round: the reactor reported a firing, but there was none.
    pub open spec fn spurious(self) -> bool {
        self.readiness is Readable && self.attempt is WouldBlock
    }

    /// Whether the reactor reported a firing, and there was one.
    pub open spec fn found(self) -> bool {
        self.readiness is Readable && self.attempt is Fired
    }
}

impl<E> Next<E> {
    /// What a poll does after the reactor's answer.
    pub open spec fn after_readiness(readiness: Readiness<E>) -> Next<E> {
        match readiness {
            Readiness::Readable => Next::Attempt,
            Readiness::NotReady => Next::Return(Poll::Pending),
            Readiness::Failed(error) => Next::Return(Poll::Ready(Err(error))),
        }
    }

    /// What a poll does after an attempt. One that finds no firing leaves the reactor to be asked.
    pub open spec fn after_attempt(attempt: Attempt<E>) -> Next<E> {
        match attempt {
            Attempt::Fired => Next::Return(Poll::Ready(Ok(()))),
            Attempt::WouldBlock => Next::AskReactor,
            Attempt::Failed(error) => Next::Return(Poll::Ready(Err(error))),
        }
    }
}

/// Goes on with a poll after the reactor's answer.
pub fn after_readiness<E>(readiness: Readiness<E>) -> (next: Next<E>)
    ensures
        next == Next::after_readiness(readiness),
{
    match readiness {
        Readiness::Readable => Next::Attempt,
        Readiness::NotReady => Next::Return(Poll::Pending),
        Readiness::Failed(error) => Next::Return(Poll::Ready(Err(error))),
    }
}

/// Goes on with a poll after an attempt.
pub fn after_attempt<E>(attempt: Attempt<E>) -> (next: Next<E>)
    ensures
        next == Next::after_attempt(attempt),
{
    match attempt {
        Attempt::Fired => Next::Return(Poll::Ready(Ok(()))),
        Attempt::WouldBlock => Next::AskReactor,
        Attempt::Failed(error) => Next::Return(Poll::Ready(Err(error))),
    }
}

impl<T> Poll<T> {
    /// The answer of a stream whose next item is what the future awaits.
    ///
    /// Such a stream never ends.
    pub fn into_item(self) -> (item: Poll<Option<T>>)
        ensures
            item == (match self {
                Poll::Ready(value) => Poll::Ready(Some(value)),
                Poll::Pending => Poll::Pending,
            }),
            item != Poll::Ready(None::<T>),
    {
        match self {
            Poll::Ready(value) => Poll::Ready(Some(value)),
            Poll::Pending => Poll::Pending,
        }
    }
}

/// What a poll that is about to ask the reactor returns if the answers are as `rounds` says, or
/// nothing if it has not returned after the last round.
pub open spec fn answer_of<E>(rounds: Seq<Round<E>>) -> Option<Poll<Result<(), E>>>
    decreases rounds.len(),
{
    if rounds.len() == 0 {
        None
    } else {
        match Next::after_readiness(rounds[0].readiness) {
            Next::Return(answer) => Some(answer),
            _ => match Next::after_attempt(rounds[0].attempt) {
                Next::Return(answer) => Some(answer),
                _ => answer_of(rounds.drop_first()),
            },
        }
    }
}

/// A poll is decided by the first round that is not spurious: the timer is pending exactly if the
/// reactor will wake the task, and it has fired exactly if an attempt found a firing.
pub proof fn law_poll_sees_through_spurious_wakeups<E>(rounds: Seq<Round<E>>, i: int)
    requires
        0 <= i < rounds.len(),
        forall|j: int| 0 <= j < i ==> (#[trigger] rounds[j]).spurious(),
        !rounds[i].spurious(),
    ensures
        answer_of(rounds) == Some(
            match rounds[i].readiness {
                Readiness::NotReady => Poll::Pending,
                Readiness::Failed(error) => Poll::Ready(Err(error)),
                Readiness::Readable => match rounds[i].attempt {
                    Attempt::Failed(error) => Poll::Ready(Err(error)),
                    _ => Poll::Ready(Ok(())),
                },
            },
        ),
    decreases i,
{
    if i > 0 {
        assert(rounds[0].spurious());
        assert forall|j: int| 0 <= j < i - 1 implies (
        #[trigger] rounds.drop_first()[j]).spurious() by {
            assert(rounds[j + 1].spurious());
        }
        law_poll_sees_through_spurious_wakeups(rounds.drop_first(), i - 1);
    }
}

/// A poll does not answer as long as all that it sees is spurious.
pub proof fn law_poll_does_not_answer_spurious_wakeups<E>(rounds: Seq<Round<E>>)
    requires
        forall|j: int| 0 <= j < rounds.len() ==> (#[trigger] rounds[j]).spurious(),
    ensures
        answer_of(rounds) is None,
    decreases rounds.len(),
{
    if rounds.len() > 0 {
        assert(rounds[0].spurious());
        assert forall|j: int| 0 <= j < rounds.len() - 1 implies (
        #[trigger] rounds.drop_first()[j]).spurious() by {
            assert(rounds[j + 1].spurious());
        }
        law_poll_does_not_answer_spurious_wakeups(rounds.drop_first());
    }
}

/// A poll leaves the task waiting only where the reactor will wake it.
pub proof fn law_pending_means_that_the_reactor_will_wake<E>(rounds: Seq<Round<E>>)
    requires
        answer_of(rounds) == Some(Poll::<Result<(), E>>::Pending),
    ensures
        exists|i: int|
            0 <= i < rounds.len() && (#[trigger] rounds[i]).readiness is NotReady && forall|j: int|
                0 <= j < i ==> (#[trigger] rounds[j]).spurious(),
    decreases rounds.len(),
{
    if rounds[0].readiness is NotReady {
        assert(forall|j: int| 0 <= j < 0 ==> (#[trigger] rounds[j]).spurious());
    } else {
        let rest = rounds.drop_first();
        law_pending_means_that_the_reactor_will_wake(rest);
        let i = choose|i: int|
            0 <= i < rest.len() && (#[trigger] rest[i]).readiness is NotReady && forall|j: int|
                0 <= j < i ==> (#[trigger] rest[j]).spurious();
        assert(rounds[i + 1].readiness is NotReady);
        assert forall|j: int| 0 <= j < i + 1 implies (#[trigger] rounds[j]).spurious() by {
            if j > 0 {
                assert(rest[j - 1].spurious());
            }
        }
    }
}

/// A poll finds that the timer has fired only by an attempt that found a firing, after attempts
/// that found none.
pub proof fn law_ready_means_that_an_attempt_found_a_firing<E>(rounds: Seq<Round<E>>)
    requires
        answer_of(rounds) == Some(Poll::Ready(Ok::<(), E>(()))),
    ensures
        exists|i: int|
            0 <= i < rounds.len() && (#[trigger] rounds[i]).found() && forall|j: int|
                0 <= j < i ==> (#[trigger] rounds[j]).spurious(),
    decreases rounds.len(),
{
    if rounds[0].spurious() {
        let rest = rounds.drop_first();
        law_ready_means_that_an_attempt_found_a_firing(rest);
        let i = choose|i: int|
            0 <= i < rest.len() && (#[trigger] rest[i]).found() && forall|j: int|
                0 <= j < i ==> (#[trigger] rest[j]).spurious();
        assert(rounds[i + 1].found());
        assert forall|j: int| 0 <= j < i + 1 implies (#[trigger] rounds[j]).spurious() by {
            if j > 0 {
                assert(rest[j - 1].spurious());
            }
        }
    } else {
        assert(rounds[0].found());
        assert(forall|j: int| 0 <= j < 0 ==> (#[trigger] rounds[j]).spurious());
    }
}

impl<E> Attempt<E> {
    /// Whether the attempt tells the truth of a timer that is or is not due: it finds a firing only
    /// if there is one, and none only if there is none.
    pub open spec fn honest(self, due: bool) -> bool {
        &&& self is Fired ==> due
        &&& self is WouldBlock ==> !due
    }
}

impl<E> Round<E> {
    /// Whether the attempt of the round, if it is made, tells the truth.
    pub open spec fn honest(self, due: bool) -> bool {
        self.readiness is Readable ==> self.attempt.honest(due)
    }
}

/// Where attempts tell the truth, a poll finds that the timer has fired only if the timer was due
/// at one of the attempts, and had not been due at any before.
pub proof fn law_ready_means_due<E>(rounds: Seq<Round<E>>, due: Seq<bool>)
    requires
        due.len() == rounds.len(),
        forall|i: int| 0 <= i < rounds.len() ==> (#[trigger] rounds[i]).honest(due[i]),
        answer_of(rounds) == Some(Poll::Ready(Ok::<(), E>(()))),
    ensures
        exists|i: int|
            0 <= i < due.len() && #[trigger] due[i] && forall|j: int|
                0 <= j < i ==> !#[trigger] due[j],
{
    law_ready_means_that_an_attempt_found_a_firing(rounds);
    let i = choose|i: int|
        0 <= i < rounds.len() && (#[trigger] rounds[i]).found() && forall|j: int|
            0 <= j < i ==> (#[trigger] rounds[j]).spurious();
    assert(due[i]);
    assert forall|j: int| 0 <= j < i implies !#[trigger] due[j] by {
        assert(rounds[j].spurious());
    }
}

/// A poll never ends without an answer of the reactor or of an attempt: it is ready only by a
/// firing that was found or by an error, which it hands on, and it is pending only if the reactor
/// will wake the task. A reported firing is looked for, and one that is not there is asked for
/// again.
pub proof fn law_poll_goes_by_what_it_is_told<E>(
    readiness: Readiness<E>,
    asked: Next<E>,
    attempt: Attempt<E>,
    tried: Next<E>,
)
    requires
        call_ensures(after_readiness::<E>, (readiness,), asked),
        call_ensures(after_attempt::<E>, (attempt,), tried),
    ensures
        asked is Attempt <==> readiness is Readable,
        asked == Next::<E>::Return(Poll::Pending) <==> readiness is NotReady,
        readiness matches Readiness::Failed(error) ==> asked == Next::Return(
            Poll::Ready(Err::<(), E>(error)),
        ),
        tried == Next::Return(Poll::Ready(Ok::<(), E>(()))) <==> attempt is Fired,
        tried is AskReactor <==> attempt is WouldBlock,
        attempt matches Attempt::Failed(error) ==> tried == Next::Return(
            Poll::Ready(Err::<(), E>(error)),
        ),
{
}

/// A stream gives each value that the future would give, waits where the future would wait, and
/// never ends.
pub proof fn law_stream_gives_what_the_future_gives<T>(answer: Poll<T>, item: Poll<Option<T>>)
    requires
        call_ensures(Poll::<T>::into_item, (answer,), item),
    ensures
        forall|value: T| answer == Poll::Ready(value) <==> item == Poll::Ready(Some(value)),
        answer is Pending <==> item is Pending,
        item != Poll::Ready(None::<T>),
{
}

} // verus!
