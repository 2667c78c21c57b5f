//! What an operating system's timers have to offer.

use vstd::prelude::*;

use crate::procedure::Step;
use crate::time::Duration;

verus! {

/// The calls by which an operating system's timers are made, armed and cleared.
///
/// Where a function takes `track`, it says whether the timer counts the time that the system
/// spends asleep.
pub trait Backend: Sized {
    /// A call into the operating system, or into the reactor that waits for it.
    type Op;

    spec fn create_steps(track: bool) -> Seq<Step<Self::Op>>;

    spec fn register_steps() -> Seq<Step<Self::Op>>;

    spec fn clear_steps() -> Seq<Step<Self::Op>>;

    spec fn one_shot_steps(track: bool, nanos: nat) -> Seq<Step<Self::Op>>;

    spec fn interval_steps(track: bool, nanos: nat) -> Seq<Step<Self::Op>>;

    spec fn watch_again_steps() -> Seq<Step<Self::Op>>;

    /// Makes a timer that is not armed.
    fn create(track: bool) -> (steps: Vec<Step<Self::Op>>)
        ensures
            steps@ == Self::create_steps(track),
    ;

    /// Lets the reactor watch the timer.
    fn register() -> (steps: Vec<Step<Self::Op>>)
        ensures
            steps@ == Self::register_steps(),
    ;

    /// Disarms the timer and forgets the firings that nobody has noticed.
    fn clear() -> (steps: Vec<Step<Self::Op>>)
        ensures
            steps@ == Self::clear_steps(),
    ;

    /// Arms the timer to fire once, after `duration`.
    fn one_shot(track: bool, duration: Duration) -> (steps: Vec<Step<Self::Op>>)
        ensures
            steps@ == Self::one_shot_steps(track, duration@),
    ;

    /// Arms the timer to fire each time `duration` has passed.
    ///
    /// A `duration` of zero stands for the shortest one that the system's timers repeat after.
    fn interval(track: bool, duration: Duration) -> (steps: Vec<Step<Self::Op>>)
        ensures
            steps@ == Self::interval_steps(track, duration@),
    ;

    /// Lets a timer that was cleared, and has been armed since, be watched again, where clearing
    /// has put an end to that.
    fn watch_again() -> (steps: Vec<Step<Self::Op>>)
        ensures
            steps@ == Self::watch_again_steps(),
    ;
}

/// A backend whose intervals can start after a delay of their own.
pub trait DelayedStart: Backend {
    spec fn interval_at_steps(track: bool, delay: nat, nanos: nat) -> Seq<Step<Self::Op>>;

    /// Arms the timer to fire after `delay_until_start`, and then each time `duration` has passed.
    ///
    /// A `duration` of zero stands for the shortest one that the system's timers repeat after.
    fn interval_at(track: bool, delay_until_start: Duration, duration: Duration) -> (steps: Vec<
        Step<Self::Op>,
    >)
        ensures
            steps@ == Self::interval_at_steps(track, delay_until_start@, duration@),
    ;
}

/// The single step `step`.
pub fn one<Op>(step: Step<Op>) -> (steps: Vec<Step<Op>>)
    ensures
        steps@ == seq![step],
{
    let mut steps: Vec<Step<Op>> = Vec::new();
    steps.push(step);
    steps
}

/// The steps of `first`, then those of `second`.
pub fn followed_by<Op>(first: Vec<Step<Op>>, second: Vec<Step<Op>>) -> (steps: Vec<Step<Op>>)
    ensures
        steps@ == first@ + second@,
{
    let mut steps: Vec<Step<Op>> = first;
    let mut more: Vec<Step<Op>> = second;
    steps.append(&mut more);
    steps
}

/// The steps that make a timer and arm it by the steps `arm`.
pub open spec fn open_steps<B: Backend>(track: bool, arm: Seq<Step<B::Op>>) -> Seq<Step<B::Op>> {
    B::create_steps(track) + arm + B::register_steps()
}

/// The steps that clear a timer and arm it anew by the steps `arm`.
pub open spec fn reset_steps<B: Backend>(arm: Seq<Step<B::Op>>) -> Seq<Step<B::Op>> {
    B::clear_steps() + arm + B::watch_again_steps()
}

/// Makes a timer, and arms it by the steps `arm`.
pub fn open<B: Backend>(track: bool, arm: Vec<Step<B::Op>>) -> (steps: Vec<Step<B::Op>>)
    ensures
        steps@ == open_steps::<B>(track, arm@),
{
    followed_by(followed_by(B::create(track), arm), B::register())
}

/// Clears a timer, and arms it anew by the steps `arm`.
pub fn reset<B: Backend>(arm: Vec<Step<B::Op>>) -> (steps: Vec<Step<B::Op>>)
    ensures
        steps@ == reset_steps::<B>(arm@),
{
    followed_by(followed_by(B::clear(), arm), B::watch_again())
}

} // verus!
