# systime

Portable async timers that handle system sleep consistently across platforms. A timer either tracks
the time that the system spends asleep or ignores it, whatever the platform's own default is.

- **Linux/Android**: `timerfd` with `CLOCK_MONOTONIC` (ignore sleep) or `CLOCK_BOOTTIME` (track
  sleep).
- **macOS/iOS**: `kqueue` and `EVFILT_TIMER` with mach absolute time (ignore sleep) or mach
  continuous time (track sleep).
- **Windows**: high-resolution waitable timers and an I/O completion port. Sleep is always tracked.

There are front ends for tokio (`ClockType`, `Sleep`, `Interval`) and for smol (`TimerType`,
`Timer`).

## Layout

`src/` is the library, verified by Verus. It decides which calls a timer needs, in which order, what
their failures mean, and when a timer counts as fired. It makes no call to the system itself.

| module | content |
| --- | --- |
| `tokio`, `smol` | the timers as their users see them |
| `procedure` | sequences of calls, carried out one reply at a time |
| `backend` | what a platform has to offer |
| `poll` | what a poll answers |
| `time` | spans of time and `struct timespec` |
| `linux`, `apple`, `windows` | the calls of each platform |
| `windows::background` | the thread that takes the completions of all timers |
| `schedule`, `countdown`, `model` | when a timer is meant to fire, and how calls act on a system |
| `linux::kernel`, `apple::kernel`, `windows::kernel` | what the calls do, and what follows from it |
| `windows::firing`, `windows::course`, `windows::protocol` | what polls see of firings, and why contexts can be freed |
| `portability` | what holds on all platforms alike |

What holds of the library as a whole is stated by the proof functions whose names begin with `law_`.

`app/` is ordinary Rust around the library: it makes the calls, hands the replies back, and
implements `Future` and `Stream`. `tests/` runs the library against simulated systems with a clock of
their own, and against the timers of Linux.

## What the proofs rest on

The states in the `kernel` modules follow the manual pages of `timerfd_create(2)` and `kqueue(2)` and
the documentation of `SetWaitableTimer` and of wait completion packets. They appear in proofs only; no
code depends on them. No function is taken at its word: the library calls none outside itself and the
standard library.

## Limits

- `timerfd` takes a span of zero as a request to disarm, or not to repeat, so that it is written as one
  nanosecond.
- On Windows a deadline is cut to units of 100 nanoseconds, and a period to whole milliseconds. A period
  of less than a millisecond is written as one, so that an interval repeats.
- A duration that the system cannot represent is refused: on Apple systems one that does not fit an
  `isize` in nanoseconds, on Windows one of more than `i64::MAX` units or a period of more than
  `i32::MAX` milliseconds. Linux itself refuses one whose seconds do not fit a `time_t`.
- On Windows a reset associates the timer's packet anew, so that firings from before the reset can be
  told from later ones. If the system does not do that, the reset fails.
- The Windows modules are verified, and tested against a simulated system, but have not been run on
  Windows.
