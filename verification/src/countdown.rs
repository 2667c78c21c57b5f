//! A system's timer at work, and when it is due.

use vstd::prelude::*;

use crate::schedule::{Program, Schedule};

verus! {

impl Program {
    /// The number of firings within `elapsed` nanoseconds.
    pub open spec fn firings_within(self, elapsed: nat) -> nat {
        if elapsed < self.first {
            0
        } else if self.period == 0 {
            1
        } else {
            1 + (elapsed - self.first) as nat / self.period
        }
    }
}

/// The firings within a span are those whose time has come.
pub proof fn law_firings_have_come_due(program: Program, elapsed: nat, n: nat)
    ensures
        n < program.firings_within(elapsed) <==> (program.fire_time(n) matches Some(time) && time
            <= elapsed),
{
    if program.period > 0 && elapsed >= program.first {
        let passed = (elapsed - program.first) as nat;
        let period = program.period;
        assert(n <= passed / period <==> n * period <= passed) by (nonlinear_arith)
            requires
                period > 0,
        ;
    }
}

/// What a system's timer has been told, and how far it is. Times are in nanoseconds, on the clock
/// that the timer follows.
pub struct Countdown {
    /// What it was told last, unless it is disarmed.
    pub program: Option<Program>,
    /// When it was told.
    pub set_at: nat,
    /// What time it is.
    pub now: nat,
    /// How many of its firings have been taken note of.
    pub noticed: nat,
}

impl Countdown {
    /// A timer that has not been told anything.
    pub open spec fn idle(now: nat) -> Countdown {
        Countdown { program: None, set_at: now, now, noticed: 0 }
    }

    pub open spec fn wf(self) -> bool {
        &&& self.set_at <= self.now
        &&& self.noticed <= self.firings()
    }

    /// The time that has passed since the timer was told what to do.
    pub open spec fn elapsed(self) -> nat {
        (self.now - self.set_at) as nat
    }

    /// The number of firings so far.
    pub open spec fn firings(self) -> nat {
        match self.program {
            Some(program) => program.firings_within(self.elapsed()),
            None => 0,
        }
    }

    /// Whether there is a firing that nobody has taken note of.
    pub open spec fn due(self) -> bool {
        self.noticed < self.firings()
    }

    /// The timer when it is told to follow `program`, or to stop.
    pub open spec fn set(self, program: Option<Program>) -> Countdown {
        Countdown { program, ..Countdown::idle(self.now) }
    }

    /// The timer when all firings have been taken note of.
    pub open spec fn notice(self) -> Countdown {
        Countdown { noticed: self.firings(), ..self }
    }

    /// Whether the timer becomes `post` as time passes.
    pub open spec fn passes(self, post: Countdown) -> bool {
        &&& self.now <= post.now
        &&& post == (Countdown { now: post.now, ..self })
    }
}

/// A timer that is disarmed is never due.
pub proof fn law_disarmed_timer_is_never_due(timer: Countdown, later: Countdown)
    requires
        timer.program is None,
        timer.passes(later),
    ensures
        !later.due(),
{
}

/// A timer that was set to fire once is due from the moment at which its span has passed, and not
/// before, until its firing is taken note of.
pub proof fn law_one_shot_is_due_when_its_span_has_passed(
    timer: Countdown,
    after: nat,
    later: Countdown,
    noticed: Countdown,
)
    requires
        timer.set(Schedule::OneShot(after).program()).passes(later),
        later.due() ==> later.notice().passes(noticed),
    ensures
        later.due() <==> later.elapsed() >= after,
        later.due() ==> !noticed.due(),
{
}

/// A timer that fires again and again is due from its next firing on: the one that follows those
/// that have been taken note of. Firings that were missed are taken note of together, and those to
/// come stay where they are, whole periods after the first.
pub proof fn law_periodic_timer_is_due_at_its_next_firing(
    timer: Countdown,
    program: Program,
    later: Countdown,
)
    requires
        program.period > 0,
        timer.program == Some(program),
        timer.wf(),
        timer.passes(later),
    ensures
        later.due() <==> later.elapsed() >= program.first + timer.noticed * program.period,
        later.notice().wf(),
        !later.notice().due(),
        later.elapsed() < program.first + later.notice().noticed * program.period,
        later.notice().noticed > 0 ==> program.first + (later.notice().noticed - 1)
            * program.period <= later.elapsed(),
{
    let elapsed = later.elapsed();
    let noticed = later.notice().noticed;
    law_firings_have_come_due(program, elapsed, timer.noticed);
    law_firings_have_come_due(program, elapsed, noticed);
    assert(0 * program.period == 0) by (nonlinear_arith);
    if noticed > 0 {
        law_firings_have_come_due(program, elapsed, (noticed - 1) as nat);
    }
}

/// Whether `ticks` are the states of a timer right after it was told to follow `program`, and then
/// right after each time at which its being due was taken note of.
pub open spec fn is_ticking(ticks: Seq<Countdown>, program: Program) -> bool {
    &&& ticks.len() > 0
    &&& exists|timer: Countdown| ticks[0] == #[trigger] timer.set(Some(program))
    &&& forall|i: int|
        #![trigger ticks[i]]
        0 <= i < ticks.len() - 1 ==> exists|later: Countdown| #[trigger]
            ticks[i].passes(later) && later.due() && ticks[i + 1] == later.notice()
}

proof fn lemma_ticks(ticks: Seq<Countdown>, program: Program, n: nat)
    requires
        program.period > 0,
        is_ticking(ticks, program),
        n < ticks.len(),
    ensures
        ticks[n as int].wf(),
        ticks[n as int].program == Some(program),
        ticks[n as int].noticed >= n,
        n > 0 ==> ticks[n as int].elapsed() >= program.first + (n - 1) * program.period,
    decreases n,
{
    if n > 0 {
        let i = n - 1;
        lemma_ticks(ticks, program, i as nat);
        let last = ticks[i];
        let later = choose|later: Countdown| #[trigger]
            last.passes(later) && later.due() && ticks[i + 1] == later.notice();
        law_periodic_timer_is_due_at_its_next_firing(last, program, later);
        let noticed = last.noticed;
        let period = program.period;
        assert(i * period <= noticed * period) by (nonlinear_arith)
            requires
                i <= noticed,
                period > 0,
        ;
    }
}

/// The `n`-th tick of a timer, counted from 0, does not come before its `n`-th firing.
pub proof fn law_ticks_are_never_early(ticks: Seq<Countdown>, program: Program, n: nat)
    requires
        program.period > 0,
        is_ticking(ticks, program),
        n + 1 < ticks.len(),
    ensures
        program.fire_time(n) matches Some(time) && ticks[n as int + 1].elapsed() >= time,
{
    lemma_ticks(ticks, program, n + 1);
    assert(0 * program.period == 0) by (nonlinear_arith);
}

} // verus!
