//! Sequences of operating-system calls, carried out one reply at a time.
//!
//! Every operation of this crate is a fixed sequence of calls, given up at the first call that
//! fails in a way that matters. A [`Procedure`] holds the calls that are still to be made. Whoever
//! runs it makes the call that [`Procedure::operation`] asks for, hands the reply to
//! [`Procedure::reply`], and goes on as the returned [`Progress`] says.

use vstd::prelude::*;

verus! {

/// The kinds of failure that decisions depend on.
#[derive(Clone, Copy, Debug, PartialEq, Eq, Structural)]
pub enum ErrorKind {
    /// The call would have had to wait.
    WouldBlock,
    /// Any other failure.
    Other,
}

/// A failed call: what kind of failure it is, and the error itself.
#[derive(Debug, PartialEq, Eq)]
pub struct Failure<E> {
    pub kind: ErrorKind,
    pub error: E,
}

/// What a failure of a call means.
#[derive(Clone, Copy, Debug, PartialEq, Eq, Structural)]
pub enum OnError {
    /// The procedure fails.
    Fail,
    /// A call that would have had to wait counts as made; with any other failure the procedure
    /// fails.
    IgnoreWouldBlock,
    /// The call counts as made.
    Ignore,
}

impl OnError {
    pub open spec fn ignores(self, kind: ErrorKind) -> bool {
        match self {
            OnError::Fail => false,
            OnError::IgnoreWouldBlock => kind is WouldBlock,
            OnError::Ignore => true,
        }
    }

    /// Whether the procedure goes on after `reply`.
    pub open spec fn accepts<E>(self, reply: Result<(), Failure<E>>) -> bool {
        match reply {
            Ok(_) => true,
            Err(failure) => self.ignores(failure.kind),
        }
    }
}

/// A step of a procedure.
#[derive(Debug, PartialEq, Eq)]
pub enum Step<Op> {
    /// Make a call.
    Call { op: Op, on_error: OnError },
    /// Give up: the system cannot represent a requested duration.
    Reject,
}

impl<Op> Step<Op> {
    /// The step that makes the call `op`, and fails if it fails.
    pub open spec fn must(op: Op) -> Step<Op> {
        Step::Call { op, on_error: OnError::Fail }
    }
}

/// Why a procedure failed.
#[derive(Debug, PartialEq, Eq)]
pub enum Error<E> {
    /// A call failed.
    Os(E),
    /// The system cannot represent a requested duration.
    InvalidInput,
}

/// The calls that are still to be made, and the value that they lead to.
pub struct Procedure<Op, T> {
    op: Op,
    on_error: OnError,
    rest: Vec<Step<Op>>,
    value: T,
}

/// Where a procedure stands.
pub enum Progress<Op, T, E> {
    /// A call is to be made.
    Perform(Procedure<Op, T>),
    /// All calls have been made.
    Done(T),
    /// The procedure has been given up.
    Failed(Error<E>),
}

impl<Op, T, E> Progress<Op, T, E> {
    /// Whether `steps` are the steps still to be taken before `value` is reached.
    pub open spec fn is_at(self, steps: Seq<Step<Op>>, value: T) -> bool {
        if steps.len() == 0 {
            self == Progress::<Op, T, E>::Done(value)
        } else {
            match steps[0] {
                Step::Call { .. } => self matches Progress::Perform(p) && p.steps() == steps
                    && p.value() == value,
                Step::Reject => self == Progress::<Op, T, E>::Failed(Error::InvalidInput),
            }
        }
    }
}

impl<Op, T> Procedure<Op, T> {
    /// The steps that are still to be taken.
    pub closed spec fn steps(self) -> Seq<Step<Op>> {
        seq![Step::Call { op: self.op, on_error: self.on_error }] + self.rest@
    }

    /// The value that the steps lead to.
    pub closed spec fn value(self) -> T {
        self.value
    }

    /// Begins to take `steps`, which lead to `value`.
    pub fn start<E>(steps: Vec<Step<Op>>, value: T) -> (progress: Progress<Op, T, E>)
        ensures
            progress.is_at(steps@, value),
    {
        let mut rest: Vec<Step<Op>> = steps;
        if rest.len() == 0 {
            return Progress::Done(value);
        }
        match rest.remove(0) {
            Step::Call { op, on_error } => {
                let procedure: Procedure<Op, T> = Procedure { op, on_error, rest, value };
                assert(procedure.steps() =~= steps@);
                Progress::Perform(procedure)
            },
            Step::Reject => Progress::Failed(Error::InvalidInput),
        }
    }

    /// The call to be made now.
    pub fn operation(&self) -> (op: &Op)
        ensures
            self.steps().len() > 0,
            self.steps()[0] matches Step::Call { op: next, .. } && *op == next,
    {
        &self.op
    }

    /// Takes note of how the call ended.
    pub fn reply<E>(self, reply: Result<(), Failure<E>>) -> (progress: Progress<Op, T, E>)
        ensures
            self.steps().len() > 0,
            self.steps()[0] matches Step::Call { on_error, .. } && (if on_error.accepts(reply) {
                progress.is_at(self.steps().drop_first(), self.value())
            } else {
                progress == Progress::<Op, T, E>::Failed(Error::Os(reply->Err_0.error))
            }),
    {
        if let Err(failure) = reply {
            let ignored: bool = match self.on_error {
                OnError::Fail => false,
                OnError::IgnoreWouldBlock => failure.kind == ErrorKind::WouldBlock,
                OnError::Ignore => true,
            };
            if !ignored {
                return Progress::Failed(Error::Os(failure.error));
            }
        }
        assert(self.steps().drop_first() =~= self.rest@);
        Procedure::start(self.rest, self.value)
    }
}

/// How a procedure has ended, if it has.
pub enum Outcome<T, E> {
    Unfinished,
    Done(T),
    Failed(Error<E>),
}

/// How the procedure that takes `steps` ends, if its calls are answered by `replies`.
pub open spec fn outcome<Op, T, E>(
    steps: Seq<Step<Op>>,
    value: T,
    replies: Seq<Result<(), Failure<E>>>,
) -> Outcome<T, E>
    decreases steps.len(),
{
    if steps.len() == 0 {
        Outcome::Done(value)
    } else {
        match steps[0] {
            Step::Reject => Outcome::Failed(Error::InvalidInput),
            Step::Call { on_error, .. } => if replies.len() == 0 {
                Outcome::Unfinished
            } else if on_error.accepts(replies[0]) {
                outcome(steps.drop_first(), value, replies.drop_first())
            } else {
                Outcome::Failed(Error::Os(replies[0]->Err_0.error))
            },
        }
    }
}

/// The progress that is shown is the outcome, as far as it is known.
pub proof fn law_progress_shows_the_outcome<Op, T, E>(
    progress: Progress<Op, T, E>,
    steps: Seq<Step<Op>>,
    value: T,
    replies: Seq<Result<(), Failure<E>>>,
)
    requires
        progress.is_at(steps, value),
    ensures
        match progress {
            Progress::Done(reached) => outcome(steps, value, replies) == Outcome::<T, E>::Done(
                reached,
            ),
            Progress::Failed(error) => outcome(steps, value, replies) == Outcome::<T, E>::Failed(
                error,
            ),
            Progress::Perform(_) => replies.len() == 0 ==> outcome(steps, value, replies)
                is Unfinished,
        },
{
}

/// Whether the first `n` steps are calls, and their replies let the procedure go on.
pub open spec fn accepted<Op, E>(
    steps: Seq<Step<Op>>,
    replies: Seq<Result<(), Failure<E>>>,
    n: int,
) -> bool {
    &&& n <= steps.len()
    &&& n <= replies.len()
    &&& forall|i: int|
        0 <= i < n ==> (#[trigger] steps[i] matches Step::Call { on_error, .. }
            && on_error.accepts(replies[i]))
}

proof fn lemma_accepted_rest<Op, E>(
    steps: Seq<Step<Op>>,
    replies: Seq<Result<(), Failure<E>>>,
    n: int,
)
    requires
        n > 0,
        steps.len() > 0,
        replies.len() > 0,
    ensures
        accepted(steps, replies, n) <==> {
            &&& accepted(steps.drop_first(), replies.drop_first(), n - 1)
            &&& steps[0] matches Step::Call { on_error, .. } && on_error.accepts(replies[0])
        },
{
    let rest = steps.drop_first();
    let later = replies.drop_first();
    if accepted(steps, replies, n) {
        assert forall|i: int| 0 <= i < n - 1 implies (#[trigger] rest[i] matches Step::Call {
            on_error,
            ..
        } && on_error.accepts(later[i])) by {
            assert(rest[i] == steps[i + 1]);
        }
    }
    if accepted(rest, later, n - 1) {
        assert forall|i: int|
            1 <= i < n implies (#[trigger] steps[i] matches Step::Call { on_error, .. }
            && on_error.accepts(replies[i])) by {
            assert(rest[i - 1] == steps[i]);
        }
    }
}

/// A procedure reaches its value exactly if every step is a call whose reply lets it go on.
pub proof fn law_done_if_every_call_is_accepted<Op, T, E>(
    steps: Seq<Step<Op>>,
    value: T,
    replies: Seq<Result<(), Failure<E>>>,
)
    ensures
        outcome(steps, value, replies) is Done <==> accepted(steps, replies, steps.len() as int),
        outcome(steps, value, replies) is Done ==> outcome(steps, value, replies) == Outcome::<
            T,
            E,
        >::Done(value),
    decreases steps.len(),
{
    if steps.len() > 0 && replies.len() > 0 {
        law_done_if_every_call_is_accepted(steps.drop_first(), value, replies.drop_first());
        lemma_accepted_rest(steps, replies, steps.len() as int);
    }
}

/// A procedure that comes to a call whose reply does not let it go on fails with the error of that
/// very call, whatever else could have been called after it.
pub proof fn law_first_failure_is_reported<Op, T, E>(
    steps: Seq<Step<Op>>,
    value: T,
    replies: Seq<Result<(), Failure<E>>>,
    n: int,
)
    requires
        0 <= n < steps.len(),
        n < replies.len(),
        accepted(steps, replies, n),
        steps[n] matches Step::Call { on_error, .. } && !on_error.accepts(replies[n]),
    ensures
        outcome(steps, value, replies) == Outcome::<T, E>::Failed(
            Error::Os(replies[n]->Err_0.error),
        ),
    decreases steps.len(),
{
    if n > 0 {
        lemma_accepted_rest(steps, replies, n);
        law_first_failure_is_reported(steps.drop_first(), value, replies.drop_first(), n - 1);
    }
}

/// A duration that the system cannot represent is reported after the calls that precede it in the
/// procedure have been made.
pub proof fn law_rejection_is_reported<Op, T, E>(
    steps: Seq<Step<Op>>,
    value: T,
    replies: Seq<Result<(), Failure<E>>>,
    n: int,
)
    requires
        0 <= n < steps.len(),
        accepted(steps, replies, n),
        steps[n] is Reject,
    ensures
        outcome(steps, value, replies) == Outcome::<T, E>::Failed(Error::InvalidInput),
    decreases steps.len(),
{
    if n > 0 {
        lemma_accepted_rest(steps, replies, n);
        law_rejection_is_reported(steps.drop_first(), value, replies.drop_first(), n - 1);
    }
}

/// Where a procedure stands is said by the steps that are left: none, and it is done; a call, and
/// that call and all that follow are still to be made; a duration that cannot be represented, and
/// it has been given up.
pub proof fn law_progress_is_said_by_the_steps_left<Op, T, E>(
    steps: Vec<Step<Op>>,
    value: T,
    progress: Progress<Op, T, E>,
)
    requires
        call_ensures(Procedure::<Op, T>::start::<E>, (steps, value), progress),
    ensures
        steps@.len() == 0 ==> progress == Progress::<Op, T, E>::Done(value),
        steps@.len() > 0 && steps@[0] is Reject ==> progress == Progress::<Op, T, E>::Failed(
            Error::InvalidInput,
        ),
        steps@.len() > 0 && steps@[0] is Call ==> (progress matches Progress::Perform(p)
            && p.steps() == steps@ && p.value() == value),
{
}

/// A procedure goes on after a call that was made, and after one that failed if that failure is to
/// be ignored: any failure, or one that says that the call would have had to wait. It has then
/// exactly the other steps left. After any other failure it ends with that very error.
pub proof fn law_reply_decides_whether_a_procedure_goes_on<Op, T, E>(
    procedure: Procedure<Op, T>,
    op: &Op,
    reply: Result<(), Failure<E>>,
    progress: Progress<Op, T, E>,
)
    requires
        call_ensures(Procedure::<Op, T>::operation, (&procedure,), op),
        call_ensures(Procedure::<Op, T>::reply::<E>, (procedure, reply), progress),
    ensures
        ({
            let steps = procedure.steps();
            let rest = steps.subrange(1, steps.len() as int);
            let goes_on = match reply {
                Ok(_) => true,
                Err(failure) => steps[0]->on_error is Ignore || (steps[0]->on_error
                    is IgnoreWouldBlock && failure.kind is WouldBlock),
            };
            &&& steps.len() > 0 && steps[0] is Call && *op == steps[0]->op
            &&& !goes_on ==> progress == Progress::<Op, T, E>::Failed(
                Error::Os(reply->Err_0.error),
            )
            &&& goes_on && rest.len() == 0 ==> progress == Progress::<Op, T, E>::Done(
                procedure.value(),
            )
            &&& goes_on && rest.len() > 0 && rest[0] is Reject ==> progress == Progress::<
                Op,
                T,
                E,
            >::Failed(Error::InvalidInput)
            &&& goes_on && rest.len() > 0 && rest[0] is Call ==> (progress
                matches Progress::Perform(p) && p.steps() == rest && p.value()
                == procedure.value())
        }),
{
}

} // verus!
