//! Timers of the Linux system on which the tests run.

use std::future::poll_fn;
use std::io::{Error, Result};
use std::task::{Context, Poll};
use std::time::{Duration, Instant};

use async_io::Async;
use futures_lite::future::{block_on, poll_once};
use nix::sys::time::TimeSpec;
use nix::sys::timerfd::{self, TimerFd, TimerSetTimeFlags};
use systime::linux::{attempt, ClockId, Expiration, Linux, Op};
use systime::poll::{after_attempt, after_readiness, Next, Readiness};
use systime::procedure::{self, Failure, Progress};
use systime::smol::TimerType;

const BOTH: [TimerType; 2] = [TimerType::TrackSleep, TimerType::IgnoreSleep];

fn span(duration: Duration) -> systime::time::Duration {
    systime::time::Duration::new(duration.as_secs(), duration.subsec_nanos())
}

fn failure(error: Error) -> Failure<Error> {
    let kind = match error.kind() {
        std::io::ErrorKind::WouldBlock => procedure::ErrorKind::WouldBlock,
        _ => procedure::ErrorKind::Other,
    };
    Failure { kind, error }
}

fn new_timer(op: Op) -> Result<TimerFd> {
    let (clock_id, flags) = match op {
        Op::NewTimer { clock_id, flags } => (clock_id, flags),
        _ => panic!("a timer is to be made first"),
    };
    let mut bits = timerfd::TimerFlags::empty();
    bits.set(timerfd::TimerFlags::TFD_NONBLOCK, flags.nonblock);
    bits.set(timerfd::TimerFlags::TFD_CLOEXEC, flags.cloexec);
    let clock_id = match clock_id {
        ClockId::Monotonic => timerfd::ClockId::CLOCK_MONOTONIC,
        ClockId::Boottime => timerfd::ClockId::CLOCK_BOOTTIME,
    };
    Ok(TimerFd::new(clock_id, bits)?)
}

fn perform(timer: &TimerFd, op: Op) -> Result<()> {
    let timespec = |ts: systime::time::TimeSpec| TimeSpec::new(ts.tv_sec, ts.tv_nsec);
    match op {
        Op::SetTime { expiration } => {
            let expiration = match expiration {
                Expiration::OneShot(after) => timerfd::Expiration::OneShot(timespec(after)),
                Expiration::Interval(period) => timerfd::Expiration::Interval(timespec(period)),
                Expiration::IntervalDelayed(start, period) => {
                    timerfd::Expiration::IntervalDelayed(timespec(start), timespec(period))
                }
            };
            timer.set(expiration, TimerSetTimeFlags::empty())?;
        }
        Op::Unset => timer.unset()?,
        Op::Wait => timer.wait()?,
        _ => panic!("the timer is there already"),
    }
    Ok(())
}

/// A timer that the reactor of `async-io` watches.
struct Timer {
    timer: systime::smol::Timer,
    fd: Async<TimerFd>,
}

fn open(progress: Progress<Op, systime::smol::Timer, Error>) -> Result<Timer> {
    let mut progress = progress;
    let mut made = None;
    let mut watched = None;
    loop {
        progress = match progress {
            Progress::Perform(procedure) => {
                let reply = match *procedure.operation() {
                    Op::Register => Async::new_nonblocking(made.take().expect("it was made"))
                        .map(|fd| watched = Some(fd)),
                    op => match &made {
                        Some(timer) => perform(timer, op),
                        None => new_timer(op).map(|timer| made = Some(timer)),
                    },
                };
                procedure.reply(reply.map_err(failure))
            }
            Progress::Done(timer) => {
                return Ok(Timer { timer, fd: watched.expect("it is watched") })
            }
            Progress::Failed(procedure::Error::Os(error)) => return Err(error),
            Progress::Failed(procedure::Error::InvalidInput) => panic!("Linux takes any duration"),
        };
    }
}

impl Timer {
    fn reset(&self, progress: Progress<Op, (), Error>) -> Result<()> {
        let mut progress = progress;
        loop {
            progress = match progress {
                Progress::Perform(procedure) => {
                    let reply = perform(self.fd.get_ref(), *procedure.operation());
                    procedure.reply(reply.map_err(failure))
                }
                Progress::Done(()) => return Ok(()),
                Progress::Failed(procedure::Error::Os(error)) => return Err(error),
                Progress::Failed(procedure::Error::InvalidInput) => {
                    panic!("Linux takes any duration")
                }
            };
        }
    }

    fn poll(&mut self, cx: &mut Context<'_>) -> Poll<Result<()>> {
        let mut next = self.timer.poll();
        loop {
            next = match next {
                Next::Attempt => {
                    let reply = self.fd.get_ref().wait().map_err(Error::from);
                    after_attempt(attempt(reply.map_err(failure)))
                }
                Next::AskReactor => after_readiness(match self.fd.poll_readable(cx) {
                    Poll::Pending => Readiness::NotReady,
                    Poll::Ready(Ok(())) => Readiness::Readable,
                    Poll::Ready(Err(error)) => Readiness::Failed(error),
                }),
                Next::Return(systime::poll::Poll::Ready(result)) => return Poll::Ready(result),
                Next::Return(systime::poll::Poll::Pending) => return Poll::Pending,
            };
        }
    }

    fn wait(&mut self) {
        block_on(poll_fn(|cx| self.poll(cx))).expect("timer awaited successfully");
    }

    fn has_fired(&mut self) -> bool {
        block_on(poll_once(poll_fn(|cx| self.poll(cx)))).is_some()
    }
}

#[test]
fn a_real_timer_fires_when_its_duration_has_passed() {
    let duration = Duration::from_millis(100);
    for ty in BOTH {
        let now = Instant::now();
        let mut timer = open(ty.after::<Linux, Error>(span(duration))).expect("timer created");
        assert!(!timer.has_fired());
        timer.wait();
        assert!(now.elapsed() >= duration);
        assert!(!timer.has_fired());
    }
}

#[test]
fn a_real_interval_fires_at_each_multiple() {
    let duration = Duration::from_millis(50);
    for ty in BOTH {
        let now = Instant::now();
        let mut timer = open(ty.interval::<Linux, Error>(span(duration))).expect("timer created");
        for i in 1..=3 {
            timer.wait();
            assert!(now.elapsed() >= i * duration);
        }
    }
}

#[test]
fn a_real_interval_can_start_late() {
    let start = Duration::from_millis(80);
    let period = Duration::from_millis(20);
    for ty in BOTH {
        let now = Instant::now();
        let progress = ty.interval_at::<Linux, Error>(span(start), span(period));
        let mut timer = open(progress).expect("timer created");
        timer.wait();
        assert!(now.elapsed() >= start);
        timer.wait();
        assert!(now.elapsed() >= start + period);
    }
}

#[test]
fn a_real_timer_forgets_what_it_is_cleared_of() {
    let duration = Duration::from_millis(20);
    for ty in BOTH {
        let mut timer = open(ty.after::<Linux, Error>(span(duration))).expect("timer created");
        let mut other = open(ty.after::<Linux, Error>(span(2 * duration))).expect("timer created");
        other.wait();
        // It has fired by now, but nobody has noticed.
        let progress = timer.timer.clear::<Linux, Error>();
        timer.reset(progress).expect("timer cleared");
        assert!(!timer.has_fired());

        let now = Instant::now();
        let progress = timer.timer.set_after::<Linux, Error>(span(duration));
        timer.reset(progress).expect("timer set");
        timer.wait();
        assert!(now.elapsed() >= duration);
    }
}

#[test]
fn a_real_timer_that_never_fires_can_be_set() {
    let duration = Duration::from_millis(20);
    for ty in BOTH {
        let mut timer = open(ty.never::<Linux, Error>()).expect("timer created");
        assert!(!timer.has_fired());
        let now = Instant::now();
        let progress = timer.timer.set_interval::<Linux, Error>(span(duration));
        timer.reset(progress).expect("timer set");
        timer.wait();
        timer.wait();
        assert!(now.elapsed() >= 2 * duration);
    }
}

#[test]
fn a_real_timer_of_zero_fires() {
    for ty in BOTH {
        let mut timer =
            open(ty.after::<Linux, Error>(span(Duration::ZERO))).expect("timer created");
        timer.wait();
        assert!(!timer.has_fired());
    }
}

#[test]
fn a_real_interval_can_start_at_once() {
    let period = Duration::from_millis(50);
    for ty in BOTH {
        let now = Instant::now();
        let progress = ty.interval_at::<Linux, Error>(span(Duration::ZERO), span(period));
        let mut timer = open(progress).expect("timer created");
        timer.wait();
        timer.wait();
        assert!(now.elapsed() >= period);
    }
}

#[test]
fn a_timespec_is_that_of_nix() {
    for duration in [
        Duration::ZERO,
        Duration::from_nanos(1),
        Duration::new(5, 999_999_999),
        Duration::new(u64::MAX / 2 + 1, 3),
        Duration::MAX,
    ] {
        let timespec = systime::time::TimeSpec::from_duration(span(duration));
        let expected = TimeSpec::from_duration(duration);
        assert_eq!(timespec.tv_sec, expected.tv_sec());
        assert_eq!(timespec.tv_nsec, expected.tv_nsec());
    }
}

#[test]
fn the_real_system_refuses_seconds_beyond_its_time() {
    let progress = TimerType::default().after::<Linux, Error>(span(Duration::MAX));
    match open(progress) {
        Ok(_) => panic!("the seconds are negative to the system"),
        Err(error) => assert_eq!(error.kind(), std::io::ErrorKind::InvalidInput),
    }
}
