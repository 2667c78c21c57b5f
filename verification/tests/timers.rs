//! Timers on a simulated Linux system, with a clock that the tests move.

use std::time::Duration;

use systime::linux::{self, ClockId, Expiration, Linux, Op};
use systime::poll::{self, Attempt, Next, Poll, Readiness};
use systime::procedure::{Error, ErrorKind, Failure, Progress};
use systime::smol::TimerType;
use systime::tokio::ClockType;

const EAGAIN: i32 = 11;
const EINVAL: i32 = 22;

fn span(duration: Duration) -> systime::time::Duration {
    systime::time::Duration::new(duration.as_secs(), duration.subsec_nanos())
}

/// How late a task runs after it was woken.
const LATENCY: u64 = 50_000;

#[derive(Clone, Copy)]
struct Program {
    set_at: u64,
    first: u64,
    period: u64,
}

/// A `timerfd`, and the clocks of its system in nanoseconds.
struct System {
    monotonic: u64,
    boottime: u64,
    clock: Option<ClockId>,
    program: Option<Program>,
    read: u64,
    made: usize,
    registered: usize,
}

impl System {
    fn new() -> System {
        System {
            monotonic: 7,
            boottime: 1_000_007,
            clock: None,
            program: None,
            read: 0,
            made: 0,
            registered: 0,
        }
    }

    fn now(&self) -> u64 {
        match self.clock.expect("there is a timer") {
            ClockId::Monotonic => self.monotonic,
            ClockId::Boottime => self.boottime,
        }
    }

    fn pass(&mut self, awake: u64) {
        self.monotonic += awake;
        self.boottime += awake;
    }

    fn suspend(&mut self, asleep: u64) {
        self.boottime += asleep;
    }

    fn real_time(&self) -> Duration {
        Duration::from_nanos(self.boottime)
    }

    fn expirations(&self) -> u64 {
        match self.program {
            None => 0,
            Some(program) => {
                let passed = self.now() - program.set_at;
                if passed < program.first {
                    0
                } else if program.period == 0 {
                    1
                } else {
                    1 + (passed - program.first) / program.period
                }
            }
        }
    }

    fn until_next_expiration(&self) -> Option<u64> {
        let program = self.program?;
        let passed = self.now() - program.set_at;
        if passed < program.first {
            Some(program.first - passed)
        } else if program.period == 0 {
            None
        } else {
            Some(program.period - (passed - program.first) % program.period)
        }
    }

    fn set(&mut self, first: i128, period: i128) -> Result<(), Failure<i32>> {
        if first < 0 || period < 0 {
            return Err(Failure { kind: ErrorKind::Other, error: EINVAL });
        }
        self.read = 0;
        self.program = if first == 0 {
            None
        } else {
            Some(Program { set_at: self.now(), first: first as u64, period: period as u64 })
        };
        Ok(())
    }

    fn perform(&mut self, op: &Op) -> Result<(), Failure<i32>> {
        let nanos = |ts: systime::time::TimeSpec| {
            ts.tv_sec as i128 * 1_000_000_000 + ts.tv_nsec as i128
        };
        match *op {
            Op::NewTimer { clock_id, flags } => {
                assert!(flags.nonblock && flags.cloexec);
                self.clock = Some(clock_id);
                self.made += 1;
                Ok(())
            }
            Op::SetTime { expiration } => match expiration {
                Expiration::OneShot(t) => self.set(nanos(t), 0),
                Expiration::Interval(t) => self.set(nanos(t), nanos(t)),
                Expiration::IntervalDelayed(s, t) => self.set(nanos(s), nanos(t)),
            },
            Op::Unset => self.set(0, 0),
            Op::Wait => {
                let expirations = self.expirations();
                if expirations == self.read {
                    Err(Failure { kind: ErrorKind::WouldBlock, error: EAGAIN })
                } else {
                    self.read = expirations;
                    Ok(())
                }
            }
            Op::Register => {
                self.registered += 1;
                Ok(())
            }
        }
    }

    fn run<T>(&mut self, progress: Progress<Op, T, i32>) -> Result<T, Error<i32>> {
        let mut progress = progress;
        loop {
            progress = match progress {
                Progress::Perform(procedure) => {
                    let reply = self.perform(procedure.operation());
                    procedure.reply(reply)
                }
                Progress::Done(value) => return Ok(value),
                Progress::Failed(error) => return Err(error),
            };
        }
    }

    fn poll(&mut self, first: Next<i32>) -> Poll<Result<(), i32>> {
        let mut next = first;
        loop {
            next = match next {
                Next::AskReactor => {
                    poll::after_readiness(if self.expirations() > self.read {
                        Readiness::Readable
                    } else {
                        Readiness::NotReady
                    })
                }
                Next::Attempt => {
                    let reply = self.perform(&Op::Wait);
                    poll::after_attempt(linux::attempt(reply))
                }
                Next::Return(answer) => return answer,
            };
        }
    }

    /// Polls until the timer has fired, and sleeps in between. `None` if it never will.
    fn block_on(&mut self, mut first: impl FnMut() -> Next<i32>) -> Option<Result<(), i32>> {
        loop {
            match self.poll(first()) {
                Poll::Ready(result) => return Some(result),
                Poll::Pending => {
                    let wait = self.until_next_expiration()?;
                    self.pass(wait + LATENCY);
                }
            }
        }
    }
}

#[test]
fn tokio_sleep() {
    let duration = Duration::from_millis(100);
    for clock_type in [ClockType::TrackSleep, ClockType::IgnoreSleep] {
        let mut system = System::new();
        let now = system.real_time();
        let mut sleep = system
            .run(clock_type.sleep::<Linux, i32>(span(duration)))
            .expect("timerfd created successfully");
        system
            .block_on(|| sleep.poll())
            .expect("the timer fires")
            .expect("timerfd awaited successfully");
        let elapsed = system.real_time() - now;
        assert!(elapsed >= duration);
        assert!(elapsed - duration <= Duration::from_millis(1));
    }
}

#[test]
fn tokio_sleep_triggers_after_reset() {
    let never = Duration::from_secs(1_000_000);
    let duration = Duration::from_millis(100);
    for clock_type in [ClockType::TrackSleep, ClockType::IgnoreSleep] {
        let mut system = System::new();
        let now = system.real_time();
        let mut sleep = system
            .run(clock_type.sleep::<Linux, i32>(span(never)))
            .expect("timerfd created successfully");
        system
            .run(sleep.reset::<Linux, i32>(span(duration)))
            .expect("timerfd reset successfully");
        system
            .block_on(|| sleep.poll())
            .expect("the timer fires")
            .expect("timerfd awaited successfully");
        let elapsed = system.real_time() - now;
        assert!(elapsed >= duration);
        assert!(elapsed - duration <= Duration::from_millis(1));
        assert_eq!((system.made, system.registered), (1, 1));
    }
}

#[test]
fn tokio_interval() {
    let duration = Duration::from_millis(50);
    for clock_type in [ClockType::TrackSleep, ClockType::IgnoreSleep] {
        let mut system = System::new();
        let now = system.real_time();
        let mut interval = system
            .run(clock_type.interval::<Linux, i32>(span(duration)))
            .expect("timerfd created successfully");
        for i in 1..=2 {
            system
                .block_on(|| interval.tick())
                .expect("the timer fires")
                .expect("timerfd awaited successfully");
            let elapsed = system.real_time() - now;
            assert!(elapsed >= duration);
            assert!(elapsed - i * duration <= i * Duration::from_millis(1));
        }
    }
}

#[test]
fn tokio_interval_triggers_after_reset() {
    let duration = Duration::from_millis(50);
    for clock_type in [ClockType::TrackSleep, ClockType::IgnoreSleep] {
        let mut system = System::new();
        let mut interval = system
            .run(clock_type.interval::<Linux, i32>(span(duration)))
            .expect("timerfd created successfully");
        system.pass(30_000_000);
        system.run(interval.reset::<Linux, i32>()).expect("timerfd reset successfully");
        let now = system.real_time();
        for i in 1..=2 {
            system
                .block_on(|| interval.tick())
                .expect("the timer fires")
                .expect("timerfd awaited successfully");
            let elapsed = system.real_time() - now;
            assert!(elapsed >= duration);
            assert!(elapsed - i * duration <= i * Duration::from_millis(1));
        }
    }
}

#[test]
fn smol_after() {
    let duration = Duration::from_millis(100);
    for timer_type in [TimerType::TrackSleep, TimerType::IgnoreSleep] {
        let mut system = System::new();
        let now = system.real_time();
        let mut timer = system
            .run(timer_type.after::<Linux, i32>(span(duration)))
            .expect("timerfd created successfully");
        system
            .block_on(|| timer.poll())
            .expect("the timer fires")
            .expect("timerfd awaited successfully");
        let elapsed = system.real_time() - now;
        assert!(elapsed >= duration);
        assert!(elapsed - duration <= Duration::from_millis(1));
    }
}

#[test]
fn smol_interval() {
    let duration = Duration::from_millis(50);
    for timer_type in [TimerType::TrackSleep, TimerType::IgnoreSleep] {
        let mut system = System::new();
        let now = system.real_time();
        let mut interval = system
            .run(timer_type.interval::<Linux, i32>(span(duration)))
            .expect("timerfd created successfully");
        for i in 1..=2 {
            let result = system.block_on(|| interval.poll()).expect("the timer fires");
            match Poll::Ready(result).into_item() {
                Poll::Ready(item) => item
                    .expect("stream never ends")
                    .expect("timerfd awaited successfully"),
                Poll::Pending => panic!("the timer has fired"),
            }
            let elapsed = system.real_time() - now;
            assert!(elapsed >= duration);
            assert!(elapsed - i * duration <= i * Duration::from_millis(1));
        }
    }
}

#[test]
fn the_system_sleep_counts_if_it_is_tracked() {
    for (clock_type, fired) in [(ClockType::TrackSleep, true), (ClockType::IgnoreSleep, false)] {
        let mut system = System::new();
        let mut sleep = system
            .run(clock_type.sleep::<Linux, i32>(span(Duration::from_secs(5))))
            .unwrap();
        system.pass(1_000_000_000);
        system.suspend(4_000_000_000);
        assert_eq!(system.poll(sleep.poll()) == Poll::Ready(Ok(())), fired);
        system.pass(4_000_000_000);
        assert_eq!(system.poll(sleep.poll()) == Poll::Ready(Ok(())), !fired);
    }
}

#[test]
fn the_default_ignores_sleep() {
    assert_eq!(ClockType::default(), ClockType::IgnoreSleep);
    assert_eq!(TimerType::default(), TimerType::IgnoreSleep);
    assert!(!ClockType::default().include_system_sleep());
    assert!(ClockType::TrackSleep.include_system_sleep());
    assert!(!TimerType::IgnoreSleep.include_system_sleep());
    assert!(TimerType::TrackSleep.include_system_sleep());
}

#[test]
fn a_sleep_can_be_used_again() {
    let second = Duration::from_secs(1);
    let mut system = System::new();
    let mut sleep = system.run(ClockType::IgnoreSleep.sleep::<Linux, i32>(span(second))).unwrap();
    system.block_on(|| sleep.poll()).unwrap().unwrap();
    let now = system.real_time();
    system.run(sleep.reset::<Linux, i32>(span(second))).unwrap();
    assert_eq!(system.poll(sleep.poll()), Poll::Pending);
    system.block_on(|| sleep.poll()).unwrap().unwrap();
    assert!(system.real_time() - now >= second);
}

#[test]
fn missed_ticks_are_skipped() {
    let period = Duration::from_millis(50);
    let mut system = System::new();
    let start = system.real_time();
    let mut interval =
        system.run(ClockType::TrackSleep.interval::<Linux, i32>(span(period))).unwrap();
    system.pass(175_000_000);
    assert_eq!(system.poll(interval.tick()), Poll::Ready(Ok(())));
    assert_eq!(system.poll(interval.tick()), Poll::Pending);
    system.block_on(|| interval.tick()).unwrap().unwrap();
    assert_eq!(
        system.real_time() - start,
        Duration::from_millis(200) + Duration::from_nanos(LATENCY)
    );
}

#[test]
fn an_interval_can_start_late() {
    let mut system = System::new();
    let start = system.real_time();
    let mut interval = system
        .run(ClockType::IgnoreSleep.interval_at::<Linux, i32>(
            span(Duration::from_millis(20)),
            span(Duration::from_millis(50)),
        ))
        .unwrap();
    for expected in [20, 70, 120] {
        system.block_on(|| interval.tick()).unwrap().unwrap();
        assert_eq!(
            system.real_time() - start,
            Duration::from_millis(expected) + Duration::from_nanos(LATENCY)
        );
    }
    system.run(interval.reset_after::<Linux, i32>(span(Duration::from_millis(5)))).unwrap();
    let start = system.real_time();
    for expected in [5, 55] {
        system.block_on(|| interval.tick()).unwrap().unwrap();
        assert_eq!(
            system.real_time() - start,
            Duration::from_millis(expected) + Duration::from_nanos(LATENCY)
        );
    }
}

#[test]
fn a_smol_timer_can_be_cleared_and_set() {
    let mut system = System::new();
    let mut timer = system.run(TimerType::TrackSleep.never::<Linux, i32>()).unwrap();
    assert_eq!(system.block_on(|| timer.poll()), None);

    system.run(timer.set_after::<Linux, i32>(span(Duration::from_millis(10)))).unwrap();
    system.pass(11_000_000);
    system.run(timer.clear::<Linux, i32>()).unwrap();
    assert_eq!(system.block_on(|| timer.poll()), None);

    system.run(timer.set_interval::<Linux, i32>(span(Duration::from_millis(10)))).unwrap();
    assert_eq!(system.block_on(|| timer.poll()), Some(Ok(())));
    assert_eq!(system.block_on(|| timer.poll()), Some(Ok(())));

    system
        .run(timer.set_interval_at::<Linux, i32>(
            span(Duration::from_millis(1)),
            span(Duration::from_millis(10)),
        ))
        .unwrap();
    let start = system.real_time();
    assert_eq!(system.block_on(|| timer.poll()), Some(Ok(())));
    assert_eq!(
        system.real_time() - start,
        Duration::from_millis(1) + Duration::from_nanos(LATENCY)
    );

    let mut other = system
        .run(TimerType::IgnoreSleep.interval_at::<Linux, i32>(
            span(Duration::from_millis(3)),
            span(Duration::from_millis(4)),
        ))
        .unwrap();
    assert_eq!(system.block_on(|| other.poll()), Some(Ok(())));
    system.run(other.clear::<Linux, i32>()).unwrap();
    assert_eq!((system.made, system.registered), (2, 2));
}

#[test]
fn a_duration_of_zero_has_passed_at_once() {
    for clock in [ClockType::TrackSleep, ClockType::IgnoreSleep] {
        let mut system = System::new();
        let start = system.real_time();
        let mut sleep = system.run(clock.sleep::<Linux, i32>(span(Duration::ZERO))).unwrap();
        assert_eq!(system.block_on(|| sleep.poll()), Some(Ok(())));
        assert!(system.real_time() - start <= Duration::from_millis(1));
        system.run(sleep.reset::<Linux, i32>(span(Duration::ZERO))).unwrap();
        assert_eq!(system.block_on(|| sleep.poll()), Some(Ok(())));
        assert!(system.real_time() - start <= Duration::from_millis(1));
    }
}

#[test]
fn an_interval_can_start_at_once() {
    let mut system = System::new();
    let period = Duration::from_millis(50);
    let start = system.real_time();
    let progress =
        TimerType::TrackSleep.interval_at::<Linux, i32>(span(Duration::ZERO), span(period));
    let mut timer = system.run(progress).unwrap();
    assert_eq!(system.block_on(|| timer.poll()), Some(Ok(())));
    assert!(system.real_time() - start <= Duration::from_millis(1));
    assert_eq!(system.block_on(|| timer.poll()), Some(Ok(())));
    assert!(system.real_time() - start >= period);
    assert!(system.real_time() - start <= period + Duration::from_millis(1));
}

#[test]
fn missed_ticks_of_a_delayed_interval_are_skipped() {
    let mut system = System::new();
    let mut interval =
        system.run(ClockType::TrackSleep.interval::<Linux, i32>(span(Duration::from_millis(50))))
            .unwrap();
    let start = system.real_time();
    system.run(interval.reset_after::<Linux, i32>(span(Duration::from_millis(20)))).unwrap();
    // The firings at 20, 70 and 120 milliseconds are seen as one; the next comes at 170.
    system.pass(130_000_000);
    assert_eq!(system.block_on(|| interval.tick()), Some(Ok(())));
    assert!(system.real_time() - start < Duration::from_millis(131));
    assert_eq!(system.block_on(|| interval.tick()), Some(Ok(())));
    let elapsed = system.real_time() - start;
    assert!(elapsed >= Duration::from_millis(170) && elapsed < Duration::from_millis(171));
}

#[test]
fn a_duration_that_is_too_long_is_refused_by_the_system() {
    let mut system = System::new();
    let refused = system.run(ClockType::TrackSleep.sleep::<Linux, i32>(span(Duration::MAX)));
    assert_eq!(refused.err(), Some(Error::Os(EINVAL)));
}

#[test]
fn polls_report_errors() {
    assert_eq!(
        poll::after_readiness(Readiness::Failed(5)),
        Next::Return(Poll::Ready(Err(5)))
    );
    assert_eq!(poll::after_attempt(Attempt::Failed(6)), Next::Return(Poll::Ready(Err(6))));
    assert_eq!(poll::after_attempt(Attempt::<i32>::WouldBlock), Next::AskReactor);
    assert_eq!(
        linux::attempt(Err(Failure { kind: ErrorKind::Other, error: 9 })),
        Attempt::Failed(9)
    );
    assert_eq!(Poll::<i32>::Pending.into_item(), Poll::Pending);
}
