//! What holds on all platforms alike.

use vstd::prelude::*;

use crate::apple;
use crate::linux;
use crate::model;
use crate::model::System;
use crate::schedule::Schedule;
use crate::windows;

verus! {

/// Whether `nanos` is a whole number of milliseconds, at least one, that all platforms can
/// represent.
pub open spec fn is_portable(nanos: nat) -> bool {
    &&& nanos > 0
    &&& nanos % 1_000_000 == 0
    &&& nanos / 1_000_000 <= i32::MAX
    &&& nanos <= isize::MAX
}

/// A timer with portable spans is told the same on every platform, and it is told exactly what was
/// asked for.
pub proof fn law_platforms_agree(
    track: bool,
    schedule: Schedule,
    on_linux: linux::kernel::State,
    on_apple: apple::kernel::State,
    on_windows: windows::kernel::State,
)
    requires
        schedule is OneShot || schedule is Interval,
        schedule.all_spans(|span: nat| is_portable(span)),
        model::reaches(None, linux::kernel::open_steps(track, schedule), on_linux),
        model::reaches(None, apple::kernel::open_steps(track, schedule), on_apple),
        model::reaches(None, windows::kernel::open_steps(track, schedule), on_windows),
    ensures
        on_linux->0.countdown.program == schedule.program(),
        on_apple->0.sole().countdown.program == schedule.program(),
        on_windows->0.countdown.program == schedule.program(),
        schedule.program()->0.realizes(schedule),
{
    assert(schedule.regular());
    assert(schedule.all_spans(|span: nat| linux::kernel::is_duration(span)));
    linux::kernel::law_new_timer_follows_its_schedule(track, schedule, on_linux);
    linux::kernel::law_schedule_is_told_exactly(schedule);
    apple::kernel::law_new_timer_follows_its_schedule(track, schedule, on_apple);
    apple::kernel::law_schedule_is_told_exactly(schedule);
    windows::kernel::law_whole_milliseconds_are_exact(schedule);
    windows::kernel::law_new_timer_follows_its_schedule(track, schedule, on_windows);
    crate::schedule::law_program_realizes_its_schedule(schedule);
}

/// An interval with a delayed start and portable spans is told the same on the platforms that offer
/// it, and it is told exactly what was asked for.
pub proof fn law_platforms_agree_on_delayed_intervals(
    track: bool,
    start: nat,
    period: nat,
    on_linux: linux::kernel::State,
    on_windows: windows::kernel::State,
)
    requires
        is_portable(start),
        is_portable(period),
        model::reaches(
            None,
            linux::kernel::open_steps(track, Schedule::IntervalAt(start, period)),
            on_linux,
        ),
        model::reaches(
            None,
            windows::kernel::open_steps(track, Schedule::IntervalAt(start, period)),
            on_windows,
        ),
    ensures
        on_linux->0.countdown.program == Schedule::IntervalAt(start, period).program(),
        on_windows->0.countdown.program == Schedule::IntervalAt(start, period).program(),
        Schedule::IntervalAt(start, period).program()->0.realizes(
            Schedule::IntervalAt(start, period),
        ),
{
    let schedule = Schedule::IntervalAt(start, period);
    assert(schedule.regular());
    assert(schedule.all_spans(|span: nat| linux::kernel::is_duration(span)));
    linux::kernel::law_new_timer_follows_its_schedule(track, schedule, on_linux);
    linux::kernel::law_schedule_is_told_exactly(schedule);
    windows::kernel::law_whole_milliseconds_are_exact(schedule);
    windows::kernel::law_new_timer_follows_its_schedule(track, schedule, on_windows);
    crate::schedule::law_program_realizes_its_schedule(schedule);
}

/// A sleep of zero fires at once on every platform: on Linux one nanosecond after it was set, and
/// on the others right away.
pub proof fn law_platforms_agree_on_zero(
    track: bool,
    on_linux: linux::kernel::State,
    on_apple: apple::kernel::State,
    on_windows: windows::kernel::State,
)
    requires
        model::reaches(None, linux::kernel::open_steps(track, Schedule::OneShot(0)), on_linux),
        model::reaches(None, apple::kernel::open_steps(track, Schedule::OneShot(0)), on_apple),
        model::reaches(None, windows::kernel::open_steps(track, Schedule::OneShot(0)), on_windows),
    ensures
        on_linux->0.countdown.elapsed() >= 1 ==> on_linux->0.countdown.due(),
        on_apple->0.due(),
        on_windows->0.countdown.due(),
{
    let schedule = Schedule::OneShot(0);
    linux::kernel::law_new_timer_follows_its_schedule(track, schedule, on_linux);
    apple::kernel::law_new_timer_follows_its_schedule(track, schedule, on_apple);
    assert(on_apple.idles(on_apple));
    apple::kernel::law_sleep_ends_when_its_duration_has_passed(track, 0, on_apple, on_apple);
    windows::kernel::law_new_timer_follows_its_schedule(track, schedule, on_windows);
}

/// An interval repeats on every platform, whatever its period.
pub proof fn law_intervals_repeat_everywhere(period: nat, n: nat)
    ensures
        linux::kernel::told(Schedule::Interval(period))->0.fire_time(n) is Some,
        apple::kernel::told(Schedule::Interval(period))->0.fire_time(n) is Some,
        windows::kernel::told(Schedule::Interval(period))->0.fire_time(n) is Some,
{
}

/// The sleep of the system counts exactly if that was asked for, on Linux and on Apple systems
/// alike. On Windows it counts in any case, so that all platforms agree where that was asked for.
pub proof fn law_platforms_agree_on_sleep(
    track: bool,
    schedule: Schedule,
    on_linux: linux::kernel::State,
    on_apple: apple::kernel::State,
    on_windows: windows::kernel::State,
    awake: nat,
    asleep: nat,
)
    requires
        schedule is OneShot || schedule is Interval,
        schedule.all_spans(|span: nat| linux::kernel::is_duration(span)),
        model::reaches(None, linux::kernel::open_steps(track, schedule), on_linux),
        model::reaches(None, apple::kernel::open_steps(track, schedule), on_apple),
        model::reaches(None, windows::kernel::open_steps(track, schedule), on_windows),
    ensures
        on_linux->0.clock_id.advance(awake, asleep) == if track {
            awake + asleep
        } else {
            awake
        },
        on_apple->0.sole().advance(awake, asleep) == on_linux->0.clock_id.advance(awake, asleep),
        on_windows->0.advance(awake, asleep) == awake + asleep,
        track ==> on_windows->0.advance(awake, asleep) == on_linux->0.clock_id.advance(
            awake,
            asleep,
        ),
{
    linux::kernel::law_new_timer_follows_its_schedule(track, schedule, on_linux);
    apple::kernel::law_new_timer_follows_its_schedule(track, schedule, on_apple);
    windows::kernel::law_sleep_is_tracked_in_any_case(track, schedule, on_windows, awake, asleep);
}

} // verus!
