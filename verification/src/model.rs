//! How the steps of a procedure act on the system that they call.

use vstd::prelude::*;

use crate::procedure::{ErrorKind, Step};

verus! {

/// The states of a system that is acted upon by calls.
pub trait System: Sized {
    /// A call.
    type Op;

    /// Whether the system can go from this state to `post` while no call is made.
    spec fn idles(self, post: Self) -> bool;

    /// Whether the call `op` can succeed in this state and lead to `post`.
    spec fn succeeds(self, op: Self::Op, post: Self) -> bool;

    /// Whether the call `op` can fail in this state, by a failure of the given kind, and lead to
    /// `post`.
    spec fn fails(self, op: Self::Op, kind: ErrorKind, post: Self) -> bool;
}

/// Whether a procedure can get past `step` in the state `pre`, and then finds the system in `post`.
pub open spec fn takes<S: System>(pre: S, step: Step<S::Op>, post: S) -> bool {
    match step {
        Step::Call { op, on_error } => {
            ||| pre.succeeds(op, post)
            ||| exists|kind: ErrorKind|
                on_error.ignores(kind) && #[trigger] pre.fails(op, kind, post)
        },
        Step::Reject => false,
    }
}

/// Whether a procedure can get past all of `steps`, with idle time before each of them, from the
/// state `pre`, and then finds the system in `post`.
pub open spec fn reaches<S: System>(pre: S, steps: Seq<Step<S::Op>>, post: S) -> bool
    decreases steps.len(),
{
    if steps.len() == 0 {
        pre == post
    } else {
        exists|before: S, after: S| #[trigger]
            pre.idles(before) && #[trigger] takes(before, steps[0], after) && reaches(
                after,
                steps.drop_first(),
                post,
            )
    }
}

/// Whether a procedure can get past all of `steps` from the state `pre`.
pub open spec fn possible<S: System>(pre: S, steps: Seq<Step<S::Op>>) -> bool {
    exists|post: S| reaches(pre, steps, post)
}

/// The states between the first step and the others.
pub proof fn lemma_first_step<S: System>(pre: S, steps: Seq<Step<S::Op>>, post: S) -> (states: (
    S,
    S,
))
    requires
        steps.len() > 0,
        reaches(pre, steps, post),
    ensures
        pre.idles(states.0),
        takes(states.0, steps[0], states.1),
        reaches(states.1, steps.drop_first(), post),
{
    choose|before: S, after: S| #[trigger]
        pre.idles(before) && #[trigger] takes(before, steps[0], after) && reaches(
            after,
            steps.drop_first(),
            post,
        )
}

/// A first step that can be taken, followed by the others.
pub proof fn lemma_one_more_step<S: System>(pre: S, steps: Seq<Step<S::Op>>, mid: S, post: S)
    requires
        steps.len() > 0,
        pre.idles(pre),
        takes(pre, steps[0], mid),
        reaches(mid, steps.drop_first(), post),
    ensures
        reaches(pre, steps, post),
{
}

} // verus!
