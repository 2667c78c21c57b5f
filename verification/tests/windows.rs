//! Timers on a simulated Windows system, with a clock that the tests move.

use std::time::Duration;

use systime::backend::Backend;
use systime::poll::Poll;
use systime::procedure::Step;
use systime::windows::background::{BackgroundTimerThread, Entry, Event};
use systime::windows::{self, Association, Enqueued, Op, SharedTimerState, Timer, Windows};

const CONTEXT: usize = 0x1000;
const ABANDONED: i32 = 735;
const LATENCY: u64 = 50_000;

fn span(duration: Duration) -> systime::time::Duration {
    systime::time::Duration::new(duration.as_secs(), duration.subsec_nanos())
}

type State = SharedTimerState<&'static str, &'static str, &'static str>;

/// A timer, its shared state and its completion port. Times are in nanoseconds.
struct System {
    now: u64,
    state: State,
    timer: Option<Timer<usize>>,
    due: Option<u64>,
    period: u64,
    /// The completion key with which the packet is associated.
    association: Option<usize>,
    queue: Vec<Entry>,
    woken: Vec<&'static str>,
    freed: usize,
    reassociated: usize,
}

impl System {
    fn new() -> System {
        let mut state: State = SharedTimerState::new("timer");
        windows::enqueue_timer(&mut state, "packet");
        // The key of a new timer is null.
        assert_eq!(
            state.association(CONTEXT),
            Association { completion_key: 0, context: CONTEXT }
        );
        let timer = match windows::enqueued(CONTEXT, Ok::<u8, i32>(0)) {
            Enqueued::Queued { context, already_signaled } => {
                Timer::new(&mut state, context, already_signaled)
            }
            Enqueued::Refused { .. } => panic!("the packet was associated"),
        };
        System {
            now: 0,
            state,
            timer: Some(timer),
            due: None,
            period: 0,
            association: Some(0),
            queue: Vec::new(),
            woken: Vec::new(),
            freed: 0,
            reassociated: 0,
        }
    }

    fn elapsed(&self) -> Duration {
        Duration::from_nanos(self.now)
    }

    fn perform(&mut self, steps: Vec<Step<Op>>) {
        for step in steps {
            match step {
                Step::Call { op: Op::SetTimer(setting), .. } => {
                    self.due = Some(self.now + (-setting.due_time) as u64 * 100);
                    self.period = setting.period as u64 * 1_000_000;
                }
                Step::Call { op: Op::CancelTimer, .. } => self.due = None,
                Step::Call { op: Op::ClearState, .. } => {
                    self.timer.as_mut().unwrap().clear(&mut self.state);
                }
                // Entries that are on their way stay there: the system may be late.
                Step::Call { op: Op::CancelPacket, .. } => self.association = None,
                Step::Call { op: Op::AssociatePacket, .. } => {
                    assert_eq!(self.association, None);
                    let context = self.timer.as_ref().unwrap().context;
                    let association = self.state.association(context);
                    assert_eq!(association.context, CONTEXT);
                    self.association = Some(association.completion_key);
                    self.state.reassociated(0);
                }
                _ => panic!("the timer has been made"),
            }
        }
    }

    /// Lets the timer fire.
    fn fire(&mut self) {
        let due = self.due.expect("the timer is set");
        self.now = due + LATENCY;
        self.due = if self.period > 0 { Some(due + self.period) } else { None };
        if let Some(completion_key) = self.association.take() {
            self.queue.push(Entry { completion_key, overlapped: CONTEXT });
        }
    }

    /// Clears the timer and sets it anew by `arm`.
    fn reset(&mut self, arm: Vec<Step<Op>>) {
        self.perform(systime::backend::reset::<Windows>(arm));
    }

    /// Runs the background thread until it waits again.
    fn run(&mut self) {
        let entries: Vec<Entry> = self.queue.drain(..).collect();
        let mut thread = BackgroundTimerThread::start()
            .run(Event::Received { num_entries: entries.len() as u32 }, ABANDONED);
        loop {
            let event = match thread {
                BackgroundTimerThread::Waiting | BackgroundTimerThread::Stopped => return,
                BackgroundTimerThread::Examining { index, .. } => Event::Examined(entries[index]),
                BackgroundTimerThread::Freeing { .. } => {
                    self.freed += 1;
                    Event::Freed
                }
                BackgroundTimerThread::LookingUp { .. } => {
                    assert_eq!(self.freed, 0);
                    Event::LookedUp { found: self.timer.is_some() }
                }
                BackgroundTimerThread::Delivering { index, .. } => {
                    let delivery = self.state.deliver(entries[index].completion_key);
                    if delivery.counts {
                        self.woken.extend(self.state.wake());
                    }
                    Event::Delivered { again: delivery.again }
                }
                BackgroundTimerThread::Reassociating { index, .. } => {
                    assert_eq!(self.association, None);
                    let association = self.state.association(entries[index].overlapped);
                    assert_eq!(association.context, CONTEXT);
                    assert_eq!(association.completion_key, entries[index].completion_key);
                    self.association = Some(association.completion_key);
                    self.reassociated += 1;
                    self.state.reassociated(0);
                    Event::Reassociated
                }
            };
            thread = thread.run(event, ABANDONED);
        }
    }

    fn poll(&mut self, waker: &'static str) -> Poll<()> {
        self.timer.as_mut().unwrap().poll(&mut self.state, waker)
    }

    fn block_on(&mut self) {
        while self.poll("task") == Poll::Pending {
            self.fire();
            self.run();
        }
    }

    fn drop_timer(&mut self) {
        let release = self.timer.take().unwrap().release(&mut self.state);
        self.due = None;
        assert_eq!(release.cancel, Some("packet"));
        self.queue.push(Entry {
            completion_key: release.completion_key,
            overlapped: release.context,
        });
    }
}

#[test]
fn sleep() {
    let duration = Duration::from_millis(10);
    let mut system = System::new();
    system.perform(Windows::one_shot(true, span(duration)));
    system.block_on();
    assert!(system.elapsed() > duration);
}

#[test]
fn reset() {
    let duration = Duration::from_millis(1);
    let mut system = System::new();
    system.perform(Windows::one_shot(true, span(duration)));
    system.reset(Windows::one_shot(true, span(10 * duration)));
    system.block_on();
    assert!(system.elapsed() > 10 * duration);
}

#[test]
fn interval() {
    let duration = Duration::from_millis(10);
    let mut system = System::new();
    for _ in 0..5 {
        let now = system.elapsed();
        system.perform(Windows::interval(true, span(duration)));
        system.block_on();
        assert!(system.elapsed() - now > duration);
    }
}

#[test]
fn a_timer_that_has_fired_can_be_reset() {
    let duration = Duration::from_millis(10);
    let mut system = System::new();
    system.perform(Windows::one_shot(true, span(duration)));
    system.block_on();
    let now = system.elapsed();
    system.perform(Windows::clear());
    assert_eq!(system.poll("task"), Poll::Pending);
    system.reset(Windows::one_shot(true, span(duration)));
    system.fire();
    system.run();
    assert_eq!(system.poll("task"), Poll::Ready(()));
    assert_eq!(system.poll("task"), Poll::Pending);
    assert!(system.elapsed() - now > duration);
}

#[test]
fn a_firing_is_seen_later_and_only_once() {
    let mut system = System::new();
    system.perform(Windows::interval(true, span(Duration::from_millis(10))));
    for _ in 0..3 {
        system.fire();
        system.run();
    }
    assert!(system.woken.is_empty());
    assert_eq!(system.state.fired_counter, Some(2));
    assert_eq!(system.poll("task"), Poll::Ready(()));
    assert_eq!(system.poll("task"), Poll::Pending);
    system.fire();
    system.run();
    assert_eq!(system.woken, vec!["task"]);
    assert_eq!(system.reassociated, 4);
    assert_eq!(system.poll("other"), Poll::Ready(()));
}

#[test]
fn a_cleared_timer_wakes_nobody() {
    let mut system = System::new();
    system.perform(Windows::one_shot(true, span(Duration::from_millis(10))));
    assert_eq!(system.poll("task"), Poll::Pending);
    system.fire();
    system.perform(Windows::clear());
    system.run();
    assert!(system.woken.is_empty());
    assert_eq!(system.state.fired_counter, None);
    assert_eq!(system.poll("task"), Poll::Pending);
}

#[test]
fn an_entry_from_before_a_reset_is_ignored() {
    let duration = Duration::from_millis(10);
    let mut system = System::new();
    system.perform(Windows::one_shot(true, span(duration)));
    system.fire();
    let now = system.elapsed();
    system.reset(Windows::one_shot(true, span(duration)));
    assert_eq!(system.poll("task"), Poll::Pending);
    // The entry of the firing before the reset is read only now.
    system.run();
    assert_eq!(system.reassociated, 0);
    assert_eq!(system.poll("task"), Poll::Pending);
    system.fire();
    assert_eq!(system.queue, vec![Entry { completion_key: 2, overlapped: CONTEXT }]);
    system.run();
    assert_eq!(system.woken, vec!["task"]);
    assert_eq!(system.poll("task"), Poll::Ready(()));
    assert!(system.elapsed() - now > duration);
}

#[test]
fn generations_are_even_and_start_over() {
    let mut state: State = SharedTimerState::new("timer");
    let mut timer: Timer<usize> = Timer::new(&mut state, CONTEXT, false);
    assert_eq!(state.generation, 0);
    timer.clear(&mut state);
    assert_eq!(state.generation, 2);
    state.generation = BackgroundTimerThread::DROP_KEY - 1;
    timer.clear(&mut state);
    assert_eq!(state.generation, BackgroundTimerThread::DROP_KEY + 1);
    state.generation = usize::MAX - 1;
    timer.clear(&mut state);
    assert_eq!(state.generation, 0);
}

#[test]
fn a_short_interval_repeats() {
    let mut system = System::new();
    system.perform(Windows::interval(true, span(Duration::from_micros(500))));
    for _ in 0..3 {
        system.block_on();
    }
    assert!(system.elapsed() >= Duration::from_micros(2_500));
}

#[test]
fn a_timer_that_was_reset_can_be_signaled_early() {
    let mut system = System::new();
    system.perform(Windows::clear());
    system.state.reassociated(1);
    assert_eq!(system.poll("task"), Poll::Ready(()));
}

#[test]
fn a_timer_that_was_signaled_early_has_fired() {
    let mut state: State = SharedTimerState::new("timer");
    let mut timer = match windows::enqueued(CONTEXT, Ok::<u8, i32>(1)) {
        Enqueued::Queued { context, already_signaled } => {
            Timer::new(&mut state, context, already_signaled)
        }
        Enqueued::Refused { .. } => panic!("the packet was associated"),
    };
    assert_eq!(timer.poll(&mut state, "task"), Poll::Ready(()));
    assert_eq!(timer.poll(&mut state, "task"), Poll::Pending);
    state.reassociated(1);
    assert_eq!(timer.poll(&mut state, "task"), Poll::Ready(()));
}

#[test]
fn the_context_of_a_refused_timer_is_freed() {
    assert_eq!(
        windows::enqueued(CONTEXT, Err::<u8, i32>(5)),
        Enqueued::Refused { free: CONTEXT, error: 5 }
    );
}

#[test]
fn the_context_is_freed_when_the_timer_is_gone() {
    let mut system = System::new();
    system.perform(Windows::one_shot(true, span(Duration::from_millis(10))));
    system.fire();
    system.drop_timer();
    assert_eq!(system.queue.len(), 2);
    assert_eq!(system.queue[1].completion_key, BackgroundTimerThread::DROP_KEY);
    system.run();
    assert_eq!(system.freed, 1);
    assert_eq!(system.reassociated, 0);
}

#[test]
fn entries_without_a_context_are_skipped() {
    let mut system = System::new();
    system.queue.push(Entry { completion_key: 0, overlapped: 0 });
    system.queue.push(Entry { completion_key: BackgroundTimerThread::DROP_KEY, overlapped: 0 });
    system.run();
    assert_eq!(system.freed, 0);
    assert_eq!(system.state.fired_counter, None);
}

#[test]
fn the_thread_ends_with_its_port() {
    let thread = BackgroundTimerThread::start();
    assert_eq!(
        thread.run(Event::WaitFailed { code: 5 }, ABANDONED),
        BackgroundTimerThread::Waiting
    );
    assert_eq!(
        thread.run(Event::WaitFailed { code: ABANDONED }, ABANDONED),
        BackgroundTimerThread::Stopped
    );
    assert_eq!(
        thread.run(Event::Received { num_entries: 0 }, ABANDONED),
        BackgroundTimerThread::Waiting
    );
    assert_eq!(BackgroundTimerThread::OVERLAPPED_ENTRY_BUFFER_SIZE, 64);
    assert_eq!(BackgroundTimerThread::NUM_THREADS, 2);
}
