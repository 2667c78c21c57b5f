//! When a timer is meant to fire.

use vstd::prelude::*;

verus! {

/// What has been asked of a timer. All spans are in nanoseconds, counted from the moment at which
/// the timer is armed.
pub enum Schedule {
    /// It never fires.
    Never,
    /// It fires once, when the given span has passed.
    OneShot(nat),
    /// It fires each time the given span has passed.
    Interval(nat),
    /// It fires when the first span has passed, and from then on each time the second has passed.
    IntervalAt(nat, nat),
}

impl Schedule {
    /// When the timer fires for the `n`-th time, counted from 0, if it does.
    pub open spec fn fire_time(self, n: nat) -> Option<nat> {
        match self {
            Schedule::Never => None,
            Schedule::OneShot(after) => if n == 0 {
                Some(after)
            } else {
                None
            },
            Schedule::Interval(period) => Some((n + 1) * period),
            Schedule::IntervalAt(start, period) => Some(start + n * period),
        }
    }

    /// Whether both schedules fire at the same times.
    pub open spec fn same_times(self, other: Schedule) -> bool {
        forall|n: nat| #[trigger] self.fire_time(n) == other.fire_time(n)
    }
}

/// An interval is an interval that starts after its own period: its first firing does not come
/// at once.
pub proof fn law_interval_starts_after_one_period(period: nat)
    ensures
        Schedule::Interval(period).same_times(Schedule::IntervalAt(period, period)),
{
    assert forall|n: nat| #[trigger]
        Schedule::Interval(period).fire_time(n) == Schedule::IntervalAt(period, period).fire_time(
            n,
        ) by {
        assert((n + 1) * period == period + n * period) by (nonlinear_arith);
    }
}

/// The firings of an interval keep the distance of one period, however late any of them is
/// noticed.
pub proof fn law_interval_firings_are_one_period_apart(start: nat, period: nat, n: nat)
    ensures
        Schedule::IntervalAt(start, period).fire_time(n + 1)->0 == Schedule::IntervalAt(
            start,
            period,
        ).fire_time(n)->0 + period,
{
    assert((n + 1) * period == n * period + period) by (nonlinear_arith);
}

/// What a system's timer has been told to do. All spans are in nanoseconds, counted from the moment
/// at which it is told.
pub struct Program {
    /// When the timer fires for the first time.
    pub first: nat,
    /// The time between two firings, or 0 if there is only one.
    pub period: nat,
}

impl Program {
    /// When the timer fires for the `n`-th time, counted from 0, if it does.
    pub open spec fn fire_time(self, n: nat) -> Option<nat> {
        if n == 0 {
            Some(self.first)
        } else if self.period == 0 {
            None
        } else {
            Some(self.first + n * self.period)
        }
    }

    /// Whether the timer fires exactly when `schedule` wants it to.
    pub open spec fn realizes(self, schedule: Schedule) -> bool {
        forall|n: nat| #[trigger] self.fire_time(n) == schedule.fire_time(n)
    }
}

impl Schedule {
    /// What a system's timer is told if it is to fire by this schedule, if it fires at all.
    pub open spec fn program(self) -> Option<Program> {
        match self {
            Schedule::Never => None,
            Schedule::OneShot(after) => Some(Program { first: after, period: 0 }),
            Schedule::Interval(period) => Some(Program { first: period, period }),
            Schedule::IntervalAt(start, period) => Some(Program { first: start, period }),
        }
    }

    /// Whether no span is zero.
    pub open spec fn regular(self) -> bool {
        self.all_spans(|span: nat| span > 0)
    }

    /// Whether `holds` is true of each of the spans.
    pub open spec fn all_spans(self, holds: spec_fn(nat) -> bool) -> bool {
        match self {
            Schedule::Never => true,
            Schedule::OneShot(after) => holds(after),
            Schedule::Interval(period) => holds(period),
            Schedule::IntervalAt(start, period) => holds(start) && holds(period),
        }
    }
}

/// The program of a schedule fires when the schedule wants it to.
pub proof fn law_program_realizes_its_schedule(schedule: Schedule)
    requires
        schedule.regular(),
    ensures
        match schedule.program() {
            Some(program) => program.realizes(schedule),
            None => forall|n: nat| #[trigger] schedule.fire_time(n) is None,
        },
{
    if let Schedule::Interval(period) = schedule {
        let program = schedule.program()->0;
        assert forall|n: nat| #[trigger] program.fire_time(n) == schedule.fire_time(n) by {
            assert((n + 1) * period == period + n * period) by (nonlinear_arith);
        }
    }
}

} // verus!
