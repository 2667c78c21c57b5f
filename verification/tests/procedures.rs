//! The calls that are made, one by one.

use systime::apple::{self, Apple, EvFlags, FilterFlag, KEvent, KeventCall};
use systime::linux::{self, ClockId, Expiration, Linux, TimerFlags};
use systime::poll::Attempt;
use systime::procedure::{Error, ErrorKind, Failure, OnError, Procedure, Progress, Step};
use systime::smol::TimerType;
use systime::time::{Duration, TimeSpec};
use systime::tokio::ClockType;
use systime::windows::{self, Windows};

const ZERO: TimeSpec = TimeSpec { tv_sec: 0, tv_nsec: 0 };

/// Takes all steps of a procedure, with replies that let it go on.
fn all_calls<Op: Copy, T>(
    progress: Progress<Op, T, &'static str>,
) -> (Vec<Op>, Result<T, Error<&'static str>>) {
    let mut calls = Vec::new();
    let mut progress = progress;
    loop {
        progress = match progress {
            Progress::Perform(procedure) => {
                calls.push(*procedure.operation());
                procedure.reply(Ok(()))
            }
            Progress::Done(value) => return (calls, Ok(value)),
            Progress::Failed(error) => return (calls, Err(error)),
        };
    }
}

/// Takes the steps of a procedure, whose call with the number `failing` fails.
fn failing_at<Op: Copy, T>(
    progress: Progress<Op, T, &'static str>,
    failing: usize,
    kind: ErrorKind,
) -> (usize, Option<Error<&'static str>>) {
    let mut made = 0;
    let mut progress = progress;
    loop {
        progress = match progress {
            Progress::Perform(procedure) => {
                let reply = if made == failing {
                    Err(Failure { kind, error: "failed" })
                } else {
                    Ok(())
                };
                made += 1;
                procedure.reply(reply)
            }
            Progress::Done(_) => return (made, None),
            Progress::Failed(error) => return (made, Some(error)),
        };
    }
}

fn millis(ms: u64) -> Duration {
    Duration::new(ms / 1000, (ms % 1000) as u32 * 1_000_000)
}

#[test]
fn durations_are_measured() {
    let duration = Duration::new(3, 141_592_653);
    assert_eq!(duration.as_secs(), 3);
    assert_eq!(duration.subsec_nanos(), 141_592_653);
    assert_eq!(duration.as_nanos(), 3_141_592_653);
    assert_eq!(duration.or_nanosecond(), duration);
    assert_eq!(Duration::new(0, 0).or_nanosecond(), Duration::new(0, 1));
    assert_eq!(
        Duration::new(u64::MAX, 999_999_999).as_nanos(),
        u64::MAX as u128 * 1_000_000_000 + 999_999_999
    );
}

#[test]
fn timespecs_are_exact_as_far_as_they_can_be() {
    assert_eq!(
        TimeSpec::from_duration(Duration::new(5, 7)),
        TimeSpec { tv_sec: 5, tv_nsec: 7 }
    );
    assert_eq!(
        TimeSpec::from_duration(Duration::new(u64::MAX, 999_999_999)),
        TimeSpec { tv_sec: -1, tv_nsec: 999_999_999 }
    );
}

#[test]
fn linux_opens_a_timer() {
    let flags = TimerFlags { nonblock: true, cloexec: true };
    let (calls, sleep) = all_calls(ClockType::TrackSleep.sleep::<Linux, _>(millis(1500)));
    assert!(sleep.is_ok());
    assert_eq!(
        calls,
        vec![
            linux::Op::NewTimer { clock_id: ClockId::Boottime, flags },
            linux::Op::SetTime {
                expiration: Expiration::OneShot(TimeSpec { tv_sec: 1, tv_nsec: 500_000_000 })
            },
            linux::Op::Register,
        ]
    );
    let (calls, timer) = all_calls(TimerType::IgnoreSleep.never::<Linux, _>());
    assert!(timer.is_ok());
    assert_eq!(
        calls,
        vec![
            linux::Op::NewTimer { clock_id: ClockId::Monotonic, flags },
            linux::Op::Register,
        ]
    );
    let (calls, _) =
        all_calls(ClockType::IgnoreSleep.interval_at::<Linux, _>(millis(20), millis(50)));
    assert_eq!(
        calls[1],
        linux::Op::SetTime {
            expiration: Expiration::IntervalDelayed(
                TimeSpec { tv_sec: 0, tv_nsec: 20_000_000 },
                TimeSpec { tv_sec: 0, tv_nsec: 50_000_000 },
            )
        }
    );
}

#[test]
fn linux_fails_with_the_first_error() {
    for failing in 0..3 {
        let opened = ClockType::TrackSleep.sleep::<Linux, _>(millis(1));
        assert_eq!(
            failing_at(opened, failing, ErrorKind::Other),
            (failing + 1, Some(Error::Os("failed")))
        );
    }
}

#[test]
fn linux_resets_a_timer_that_has_not_fired() {
    let (_, sleep) = all_calls(ClockType::TrackSleep.sleep::<Linux, _>(millis(1)));
    let mut sleep = sleep.unwrap();
    let (calls, reset) = all_calls(sleep.reset::<Linux, &'static str>(millis(2)));
    assert!(reset.is_ok());
    assert_eq!(
        calls,
        vec![
            linux::Op::Unset,
            linux::Op::Wait,
            linux::Op::SetTime {
                expiration: Expiration::OneShot(TimeSpec { tv_sec: 0, tv_nsec: 2_000_000 })
            },
        ]
    );
    // That there is nothing to be read is no failure; another error is.
    assert_eq!(
        failing_at(sleep.reset::<Linux, _>(millis(2)), 1, ErrorKind::WouldBlock),
        (3, None)
    );
    assert_eq!(
        failing_at(sleep.reset::<Linux, _>(millis(2)), 1, ErrorKind::Other),
        (2, Some(Error::Os("failed")))
    );
    assert_eq!(
        failing_at(sleep.reset::<Linux, _>(millis(2)), 0, ErrorKind::WouldBlock),
        (1, Some(Error::Os("failed")))
    );
}

fn added(track: bool, oneshot: bool, data: isize) -> apple::Op {
    apple::Op::Kevent(KeventCall {
        change: Some(KEvent {
            ident: 0x54494D45,
            flags: EvFlags { add: true, enable: true, oneshot, delete: false },
            fflags: FilterFlag { nseconds: true, mach_continuous_time: track },
            data,
            udata: 0,
        }),
        capacity: 0,
        timeout: ZERO,
    })
}

fn removed() -> apple::Op {
    apple::Op::Kevent(KeventCall {
        change: Some(KEvent {
            ident: 0x54494D45,
            flags: EvFlags { add: false, enable: false, oneshot: false, delete: true },
            fflags: FilterFlag { nseconds: false, mach_continuous_time: false },
            data: 0,
            udata: 0,
        }),
        capacity: 1,
        timeout: ZERO,
    })
}

#[test]
fn apple_opens_and_resets_a_timer() {
    let (calls, sleep) = all_calls(ClockType::TrackSleep.sleep::<Apple, _>(millis(100)));
    assert_eq!(
        calls,
        vec![
            apple::Op::NewKqueue,
            apple::Op::SetCloexec,
            added(true, true, 100_000_000),
            apple::Op::Register,
        ]
    );
    let (calls, _) = all_calls(sleep.unwrap().reset::<Apple, &'static str>(millis(1)));
    assert_eq!(calls, vec![removed(), added(true, true, 1_000_000)]);

    let (calls, interval) = all_calls(ClockType::IgnoreSleep.interval::<Apple, _>(millis(50)));
    assert_eq!(calls[2], added(false, false, 50_000_000));
    let (calls, _) = all_calls(interval.unwrap().reset::<Apple, &'static str>());
    assert_eq!(calls, vec![removed(), added(false, false, 50_000_000)]);

    let (calls, timer) = all_calls(TimerType::TrackSleep.never::<Apple, _>());
    assert_eq!(
        calls,
        vec![apple::Op::NewKqueue, apple::Op::SetCloexec, apple::Op::Register]
    );
    let mut timer = timer.unwrap();
    assert_eq!(all_calls(timer.clear::<Apple, _>()).0, vec![removed()]);
    assert_eq!(
        all_calls(timer.set_interval::<Apple, _>(millis(1))).0,
        vec![removed(), added(true, false, 1_000_000)]
    );
    assert_eq!(
        all_calls(timer.set_after::<Apple, _>(millis(1))).0,
        vec![removed(), added(true, true, 1_000_000)]
    );
}

#[test]
fn apple_rejects_a_duration_that_is_too_long() {
    // isize::MAX nanoseconds.
    let longest = Duration::new(9_223_372_036, 854_775_807);
    let (calls, timer) = all_calls(TimerType::TrackSleep.after::<Apple, _>(longest));
    assert_eq!(calls[2], added(true, true, isize::MAX));
    let too_long = Duration::new(9_223_372_036, 854_775_808);
    let (calls, rejected) = all_calls(TimerType::TrackSleep.after::<Apple, _>(too_long));
    assert_eq!(calls, vec![apple::Op::NewKqueue, apple::Op::SetCloexec]);
    assert_eq!(rejected.err(), Some(Error::InvalidInput));
    let (calls, rejected) = all_calls(timer.unwrap().set_after::<Apple, &'static str>(too_long));
    assert_eq!(calls, vec![removed()]);
    assert_eq!(rejected.err(), Some(Error::InvalidInput));
    assert_eq!(
        apple::rejection_message(),
        "Duration cannot be represented in isize nanoseconds"
    );
}

#[test]
fn apple_takes_note_of_events() {
    assert_eq!(apple::receive(), KeventCall { change: None, capacity: 1, timeout: ZERO });
    assert_eq!(apple::attempt(Ok::<usize, i32>(1)), Attempt::Fired);
    assert_eq!(apple::attempt(Ok::<usize, i32>(0)), Attempt::WouldBlock);
    assert_eq!(apple::attempt(Err::<usize, i32>(4)), Attempt::Failed(4));
}

fn set(due_time: i64, period: i32) -> windows::Op {
    windows::Op::SetTimer(windows::TimerSetting { due_time, period })
}

#[test]
fn windows_opens_and_resets_a_timer() {
    let access =
        windows::TimerAccess { modify_state: true, query_state: true, synchronize: true };
    let (calls, interval) =
        all_calls(ClockType::IgnoreSleep.interval_at::<Windows, _>(millis(5), millis(10)));
    assert_eq!(
        calls,
        vec![
            windows::Op::CreateTimer { high_resolution: true, access },
            windows::Op::CreatePacket,
            windows::Op::AssociatePacket,
            set(-50_000, 10),
        ]
    );
    let mut interval = interval.unwrap();
    let resetting = |setting| {
        vec![
            windows::Op::CancelTimer,
            windows::Op::ClearState,
            windows::Op::CancelPacket,
            setting,
            windows::Op::AssociatePacket,
        ]
    };
    assert_eq!(all_calls(interval.reset::<Windows, _>()).0, resetting(set(-100_000, 10)));
    assert_eq!(
        all_calls(interval.reset_after::<Windows, _>(millis(1))).0,
        resetting(set(-10_000, 10))
    );
    // That the timer or its packet cannot be canceled is no failure.
    for i in [0, 2] {
        assert_eq!(failing_at(interval.reset::<Windows, _>(), i, ErrorKind::Other), (5, None));
    }
    for i in [3, 4] {
        assert_eq!(
            failing_at(interval.reset::<Windows, _>(), i, ErrorKind::Other),
            (i + 1, Some(Error::Os("failed")))
        );
    }
    let (calls, timer) = all_calls(TimerType::TrackSleep.never::<Windows, _>());
    assert_eq!(calls.len(), 3);
    assert_eq!(
        all_calls(timer.unwrap().clear::<Windows, _>()).0,
        vec![windows::Op::CancelTimer, windows::Op::ClearState, windows::Op::CancelPacket]
    );
    match windows::Timer::<usize>::stop().as_slice() {
        [Step::Call { op: windows::Op::CancelTimer, on_error: OnError::Ignore }] => {}
        _ => panic!("the timer is stopped first"),
    }
}

fn setting(deadline: Duration, period: Option<Duration>) -> Option<(i64, i32)> {
    match windows::set_timer(deadline, period) {
        Step::Call { op: windows::Op::SetTimer(setting), on_error } => {
            assert_eq!(on_error, OnError::Fail);
            Some((setting.due_time, setting.period))
        }
        Step::Call { .. } => panic!("the timer is not set"),
        Step::Reject => None,
    }
}

#[test]
fn windows_cuts_durations_to_units() {
    assert_eq!(setting(Duration::new(0, 199), None), Some((-1, 0)));
    assert_eq!(setting(Duration::new(0, 0), None), Some((0, 0)));
    let uneven = Duration::new(0, 1_999_999);
    assert_eq!(setting(uneven, Some(uneven)), Some((-19_999, 1)));
    assert_eq!(setting(millis(1), Some(Duration::new(0, 10_500_000))), Some((-10_000, 10)));
    let even = Duration::new(0, 2_000_000);
    assert_eq!(setting(even, Some(even)), Some((-20_000, 2)));
    // Short intervals repeat.
    let short = Duration::new(0, 500_000);
    assert_eq!(setting(short, Some(short)), Some((-5_000, 1)));
    assert_eq!(setting(Duration::new(0, 0), Some(Duration::new(0, 1))), Some((0, 1)));
    assert_eq!(setting(Duration::new(0, 0), Some(Duration::new(0, 0))), Some((0, 1)));
}

#[test]
fn windows_rejects_a_duration_that_is_too_long() {
    // 2 to the power of 63 units, less one, and one more.
    let longest = Duration::new(922_337_203_685, 477_580_799);
    assert_eq!(setting(longest, None), Some((-i64::MAX, 0)));
    assert_eq!(setting(Duration::new(922_337_203_685, 477_580_800), None), None);
    assert_eq!(setting(Duration::new(u64::MAX, 999_999_999), None), None);
    // The longest period of i32::MAX milliseconds, and a nanosecond more.
    let period = Duration::new(2_147_483, 647_999_999);
    assert_eq!(setting(millis(1), Some(period)), Some((-10_000, i32::MAX)));
    let too_long = Duration::new(2_147_483, 648_000_000);
    assert_eq!(setting(millis(1), Some(too_long)), None);

    let (calls, rejected) = all_calls(ClockType::TrackSleep.interval::<Windows, _>(too_long));
    assert_eq!(calls.len(), 3);
    assert_eq!(rejected.err(), Some(Error::InvalidInput));
    let (_, timer) = all_calls(TimerType::TrackSleep.after::<Windows, _>(longest));
    let (calls, rejected) =
        all_calls(timer.unwrap().set_interval::<Windows, &'static str>(too_long));
    assert_eq!(calls.len(), 3);
    assert_eq!(rejected.err(), Some(Error::InvalidInput));
    assert_eq!(
        windows::rejection_message(),
        "Duration cannot be represented by a waitable timer"
    );
}

#[test]
fn spans_of_zero_are_written_as_the_shortest() {
    let zero = Duration::new(0, 0);
    let nano = TimeSpec { tv_sec: 0, tv_nsec: 1 };
    let set_time = |expiration| linux::Op::SetTime { expiration };
    let (calls, _) = all_calls(ClockType::IgnoreSleep.sleep::<Linux, _>(zero));
    assert_eq!(calls[1], set_time(Expiration::OneShot(nano)));
    let (calls, _) = all_calls(TimerType::TrackSleep.interval::<Linux, _>(zero));
    assert_eq!(calls[1], set_time(Expiration::Interval(nano)));
    let (calls, timer) = all_calls(TimerType::TrackSleep.interval_at::<Linux, _>(zero, millis(50)));
    let period = TimeSpec { tv_sec: 0, tv_nsec: 50_000_000 };
    assert_eq!(calls[1], set_time(Expiration::IntervalDelayed(nano, period)));
    let (calls, _) =
        all_calls(timer.unwrap().set_interval_at::<Linux, &'static str>(millis(50), zero));
    assert_eq!(calls[2], set_time(Expiration::IntervalDelayed(period, nano)));
    let (calls, _) = all_calls(TimerType::TrackSleep.interval::<Apple, _>(zero));
    assert_eq!(calls[2], added(true, false, 1));
    let (calls, _) = all_calls(TimerType::TrackSleep.after::<Apple, _>(zero));
    assert_eq!(calls[2], added(true, true, 0));
}

#[test]
fn procedures_without_steps_are_done() {
    let progress: Progress<u8, i32, i32> = Procedure::start(Vec::new(), 5);
    match progress {
        Progress::Done(value) => assert_eq!(value, 5),
        _ => panic!("there is nothing to do"),
    }
    let progress: Progress<u8, i32, i32> = Procedure::start(vec![Step::Reject], 5);
    match progress {
        Progress::Failed(error) => assert_eq!(error, Error::InvalidInput),
        _ => panic!("there is nothing to do"),
    }
}
