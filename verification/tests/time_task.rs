//! Waits, tasks and the order in which they run.
use rebar::executor::{ExecutorConfig, Scheduler, Timers};
use rebar::task::{JoinError, JoinHandle, JoinStep, RawTask, TaskState};
use rebar::time::{
    sleep, sleep_until, timeout, timeout_at, Duration, Elapsed, Instant, Sleep, Timeout,
    TimeoutStep, WaitStep,
};

fn at(millis: u64) -> Instant {
    Instant::from_nanos(millis * 1_000_000)
}

fn scheduler() -> Scheduler<&'static str> {
    Scheduler::new(&ExecutorConfig::<()>::default(), at(0))
}

/// Lets a wait run by the timers of a scheduler, and says when it is over.
fn run_sleep(wait: &mut Sleep, mut now: u64) -> u64 {
    let mut s = scheduler();
    loop {
        match wait.poll_at(at(now)) {
            WaitStep::Ready => return now,
            WaitStep::Register(deadline) => s.register_timer(deadline, "sleep"),
            WaitStep::Wait => {}
        }
        now += (s.poll_timeout(at(now)).as_nanos() / 1_000_000) as u64;
        assert_eq!(s.fire_timers(at(now)), vec!["sleep"]);
    }
}

#[test]
fn sleep_zero_completes_immediately() {
    let mut wait = sleep(at(7), Duration::zero());
    assert_eq!(wait.poll_at(at(7)), WaitStep::Ready);
}

#[test]
fn sleep_completes_after_duration() {
    let mut wait = sleep(at(100), Duration::from_millis(50));
    assert_eq!(run_sleep(&mut wait, 100), 150);
}

#[test]
fn sleep_until_works() {
    let mut wait = sleep_until(at(150));
    assert_eq!(run_sleep(&mut wait, 100), 150);
}

#[test]
fn sleep_asks_for_one_timer() {
    let mut wait = sleep_until(at(150));
    assert_eq!(wait.poll_at(at(100)), WaitStep::Register(at(150)));
    assert_eq!(wait.poll_at(at(120)), WaitStep::Wait);
    assert_eq!(wait.poll_at(at(150)), WaitStep::Ready);
}

#[test]
fn timer_multiple() {
    let mut timers = Timers::new();
    timers.register_timer(at(30), 1);
    timers.register_timer(at(10), 2);
    timers.register_timer(at(30), 3);
    assert_eq!(timers.next_timer_deadline(), Some(at(10)));
    assert!(timers.fire_timers(at(9)).is_empty());
    assert_eq!(timers.fire_timers(at(10)), vec![2]);
    assert_eq!(timers.fire_timers(at(100)), vec![1, 3]);
    assert_eq!(timers.next_timer_deadline(), None);
}

#[test]
fn timeout_completes_in_time() {
    let mut bounded = timeout(at(0), Duration::from_secs(1), ());
    assert!(matches!(bounded.poll_at(Some(42), at(0)), TimeoutStep::Ready(Ok(42))));
}

#[test]
fn timeout_expires() {
    let mut bounded = timeout(at(0), Duration::from_millis(10), ());
    assert!(matches!(bounded.poll_at::<u8>(None, at(0)), TimeoutStep::Register(d) if d == at(10)));
    assert!(matches!(bounded.poll_at::<u8>(None, at(5)), TimeoutStep::Wait));
    assert!(matches!(bounded.poll_at::<u8>(None, at(10)), TimeoutStep::Ready(Err(Elapsed))));
}

#[test]
fn timeout_at_works() {
    let mut bounded = timeout_at(at(10), ());
    assert!(matches!(bounded.poll_at::<u8>(None, at(11)), TimeoutStep::Ready(Err(Elapsed))));
}

#[test]
fn timeout_with_zero_duration() {
    let mut bounded = timeout(at(0), Duration::zero(), ());
    assert!(matches!(bounded.poll_at(Some(42), at(0)), TimeoutStep::Ready(Ok(42))));
}

/// Lets time pass up to the next timer, and says what it is then.
fn pass(s: &mut Scheduler<&'static str>, now: u64) -> u64 {
    let later = now + (s.poll_timeout(at(now)).as_nanos() / 1_000_000) as u64;
    s.fire_timers(at(later));
    later
}

/// Polls a wait, and sets the timer that it asks for.
fn poll_wait(wait: &mut Sleep, s: &mut Scheduler<&'static str>, now: u64) -> bool {
    match wait.poll_at(at(now)) {
        WaitStep::Ready => true,
        WaitStep::Register(deadline) => {
            s.register_timer(deadline, "wait");
            false
        }
        WaitStep::Wait => false,
    }
}

/// Polls what is done in time, and sets the timer that it asks for.
fn poll_bound<F, T>(
    bounded: &mut Timeout<F>,
    done: Option<T>,
    s: &mut Scheduler<&'static str>,
    now: u64,
) -> Option<Result<T, Elapsed>> {
    match bounded.poll_at(done, at(now)) {
        TimeoutStep::Ready(result) => Some(result),
        TimeoutStep::Register(deadline) => {
            s.register_timer(deadline, "bound");
            None
        }
        TimeoutStep::Wait => None,
    }
}

/// Lets waits of these lengths run side by side, and says when each was over, in that order.
fn run_side_by_side(millis: &[u64]) -> Vec<(usize, u64)> {
    let mut s = scheduler();
    let mut waits: Vec<Option<Sleep>> =
        millis.iter().map(|m| Some(sleep(at(0), Duration::from_millis(*m)))).collect();
    let mut order = Vec::new();
    let mut now = 0;
    while order.len() < waits.len() {
        for (i, slot) in waits.iter_mut().enumerate() {
            let over = match slot {
                Some(wait) => poll_wait(wait, &mut s, now),
                None => false,
            };
            if over {
                order.push((i, now));
                *slot = None;
            }
        }
        now = pass(&mut s, now);
    }
    order
}

#[test]
fn timer_basic() {
    let mut wait = sleep(at(0), Duration::from_millis(50));
    assert_eq!(run_sleep(&mut wait, 0), 50);
}

#[test]
fn sleep_ordering_preserved() {
    assert_eq!(run_side_by_side(&[40, 10]), vec![(1, 10), (0, 40)]);
}

#[test]
fn multiple_concurrent_sleeps() {
    assert_eq!(run_side_by_side(&[50, 50, 50]), vec![(0, 50), (1, 50), (2, 50)]);
}

#[test]
fn timeout_inner_completes_before_deadline() {
    let mut s = scheduler();
    let inner = sleep(at(0), Duration::from_millis(10));
    let mut bounded = timeout(at(0), Duration::from_secs(1), inner);
    let mut now = 0;
    let result = loop {
        let over = poll_wait(bounded.future_mut(), &mut s, now);
        let done = if over { Some("done") } else { None };
        if let Some(result) = poll_bound(&mut bounded, done, &mut s, now) {
            break result;
        }
        now = pass(&mut s, now);
    };
    assert_eq!(result, Ok("done"));
    assert_eq!(now, 10);
}

#[test]
fn nested_timeouts() {
    let mut s = scheduler();
    let wait = sleep(at(0), Duration::from_secs(10));
    let inner = timeout(at(0), Duration::from_millis(10), wait);
    let mut outer = timeout(at(0), Duration::from_secs(1), inner);
    let mut now = 0;
    let result = loop {
        let inner = outer.future_mut();
        let over = poll_wait(inner.future_mut(), &mut s, now);
        let done = poll_bound(inner, if over { Some(()) } else { None }, &mut s, now);
        if let Some(result) = poll_bound(&mut outer, done, &mut s, now) {
            break result;
        }
        now = pass(&mut s, now);
    };
    assert_eq!(result, Ok(Err(Elapsed)));
    assert_eq!(now, 10);
}

#[test]
fn elapsed_display() {
    assert_eq!(Elapsed.to_string(), "deadline has elapsed");
}

#[test]
fn elapsed_is_error() {
    let err: Result<(), Elapsed> = Err(Elapsed);
    assert_eq!(err.unwrap_err().to_string(), "deadline has elapsed");
}

#[test]
fn sleep_deadline_accessor() {
    let base = std::time::Instant::now();
    let now = || Instant::from_nanos(base.elapsed().as_nanos() as u64);
    let before = now();
    let s = sleep(now(), Duration::from_millis(100));
    let after = now();
    let deadline = s.deadline().as_nanos();
    assert!(deadline >= before.checked_add(Duration::from_millis(100)).unwrap().as_nanos());
    assert!(deadline <= after.checked_add(Duration::from_millis(100)).unwrap().as_nanos());
}

#[test]
fn join_handle_is_pending_before_completion() {
    let mut state: TaskState<u8, &str> = TaskState::new();
    assert!(matches!(state.poll_join("me"), JoinStep::Pending));
}

#[test]
fn task_completion_resolves_join_handle() {
    let mut raw = RawTask::new();
    let mut state: TaskState<u8, &str> = TaskState::new();
    assert!(raw.is_live());
    assert_eq!(state.complete(Ok(42)), None);
    assert!(raw.polled(true));

    match state.poll_join("me") {
        JoinStep::Ready(val) => assert_eq!(val.unwrap(), 42),
        JoinStep::Pending => panic!("expected Ready"),
    }
}

#[test]
fn completion_wakes_whoever_waits() {
    let mut state: TaskState<u8, &str> = TaskState::new();
    assert!(matches!(state.poll_join("first"), JoinStep::Pending));
    assert!(matches!(state.poll_join("second"), JoinStep::Pending));
    assert_eq!(state.complete(Ok(1)), Some("second"));
}

#[test]
fn waker_enqueues_task() {
    let mut s = scheduler();
    let id = s.spawn();
    assert_eq!(s.next_task(0), Some(id));
    assert!(!s.is_enqueued(id));

    s.wake(id);

    assert!(s.is_enqueued(id));
    assert_eq!(s.next_task(0), Some(id));
    assert_eq!(s.next_task(0), None);
}

#[test]
fn double_wake_does_not_double_enqueue() {
    let mut s = scheduler();
    let id = s.spawn();
    s.next_task(0);
    s.wake(id);
    s.wake(id);
    assert_eq!(s.next_task(0), Some(id));
    assert_eq!(s.next_task(0), None);
}

#[test]
fn drop_cancels_task() {
    let mut s = scheduler();
    let id = s.spawn();
    let state: TaskState<u8, &str> = TaskState::new();
    let handle = JoinHandle::new(());
    assert!(handle.drop_cancels(state.is_completed()));
    s.cancel(id);
    assert!(!s.is_live(id));

    let mut kept = JoinHandle::new(());
    kept.detach();
    assert!(!kept.drop_cancels(false));
}

#[test]
fn join_handle_returns_error_on_panic() {
    let mut state: TaskState<u8, &str> = TaskState::new();
    state.complete(Err(JoinError::Panicked("boom".to_string())));
    match state.poll_join("me") {
        JoinStep::Ready(Err(JoinError::Panicked(msg))) => assert_eq!(msg, "boom"),
        _ => panic!("expected Err(Panicked)"),
    }
}

/// Tasks that are over when they are first polled, run by a scheduler.
struct Tasks {
    scheduler: Scheduler<&'static str>,
    outcomes: Vec<Option<Result<u32, JoinError>>>,
    states: Vec<TaskState<u32, &'static str>>,
}

impl Tasks {
    fn new() -> Tasks {
        Tasks { scheduler: scheduler(), outcomes: Vec::new(), states: Vec::new() }
    }

    fn spawn(&mut self, outcome: Result<u32, JoinError>) -> usize {
        let id = self.scheduler.spawn();
        self.outcomes.push(Some(outcome));
        self.states.push(TaskState::new());
        id as usize
    }

    fn join(&mut self, id: usize) -> Result<u32, JoinError> {
        loop {
            match self.states[id].poll_join("root") {
                JoinStep::Ready(outcome) => return outcome,
                JoinStep::Pending => self.tick(),
            }
        }
    }

    fn tick(&mut self) {
        let mut polled = 0;
        while let Some(id) = self.scheduler.next_task(polled) {
            polled += 1;
            let outcome = self.outcomes[id as usize].take().unwrap();
            self.states[id as usize].complete(outcome);
            self.scheduler.polled(id, true);
        }
        assert!(polled > 0);
    }
}

#[test]
fn spawn_and_await_join_handle() {
    let mut tasks = Tasks::new();
    let handle = tasks.spawn(Ok(10 + 32));
    assert_eq!(tasks.join(handle).unwrap(), 42);
}

#[test]
fn spawn_multiple_tasks() {
    let mut tasks = Tasks::new();
    let a = tasks.spawn(Ok(1));
    let b = tasks.spawn(Ok(2));
    let c = tasks.spawn(Ok(3));
    let sum = tasks.join(a).unwrap() + tasks.join(b).unwrap() + tasks.join(c).unwrap();
    assert_eq!(sum, 6);
}

#[test]
fn spawn_chain() {
    let mut tasks = Tasks::new();
    let inner = tasks.spawn(Ok(7));
    let product = tasks.join(inner).unwrap() * 6;
    let outer = tasks.spawn(Ok(product));
    assert_eq!(tasks.join(outer).unwrap(), 42);
}

#[test]
fn task_panic_does_not_crash_executor() {
    let mut tasks = Tasks::new();
    let panicking = tasks.spawn(Err(JoinError::Panicked("boom".to_string())));
    assert!(tasks.join(panicking).is_err());
    let normal = tasks.spawn(Ok(42));
    assert_eq!(tasks.join(normal).unwrap(), 42);
}

#[test]
fn tick_budget_enforcement() {
    let config = ExecutorConfig::<()> { tick_budget: 2, ..Default::default() };
    let mut s: Scheduler<()> = Scheduler::new(&config, at(0));
    for _ in 0..4 {
        s.spawn();
    }
    let mut ticks = Vec::new();
    while s.poll_timeout(at(0)) == Duration::zero() {
        let mut polled = 0;
        while let Some(id) = s.next_task(polled) {
            polled += 1;
            s.polled(id, true);
            assert!(!s.is_live(id));
        }
        ticks.push(polled);
    }
    assert_eq!(ticks, vec![2, 2]);
}

#[test]
fn with_executor_accessible_inside_block_on() {
    let config = ExecutorConfig::<()>::default();
    assert_eq!(config.tick_budget, 128);
    assert_eq!(config.epoch_interval, Duration::from_millis(100));
    assert!(config.pool_config.is_none());
    let mut s: Scheduler<()> = Scheduler::new(&config, at(0));
    for _ in 0..200 {
        s.spawn();
    }
    let mut polled = 0;
    while s.next_task(polled).is_some() {
        polled += 1;
    }
    assert_eq!(polled, 128);
}

#[test]
fn the_event_loop_waits_only_when_nothing_runs() {
    let mut s = scheduler();
    assert_eq!(s.poll_timeout(at(0)), Duration::from_millis(1));
    s.register_timer(at(40), "later");
    assert_eq!(s.poll_timeout(at(15)), Duration::from_millis(25));
    assert_eq!(s.poll_timeout(at(50)), Duration::zero());
    s.set_root_woken(true);
    assert_eq!(s.poll_timeout(at(15)), Duration::zero());
    s.set_root_woken(false);
    let id = s.spawn();
    assert_eq!(s.poll_timeout(at(15)), Duration::zero());
    s.next_task(0);
    s.release(id);
    assert!(!s.knows(id));
}

#[test]
fn buffers_change_once_in_an_interval() {
    let mut s = scheduler();
    assert!(!s.rotate_epoch(at(99)));
    assert!(s.rotate_epoch(at(100)));
    assert!(!s.rotate_epoch(at(199)));
    assert!(s.rotate_epoch(at(205)));
}

#[test]
fn durations_saturate() {
    assert_eq!(Duration::from_secs(1), Duration::from_millis(1000));
    assert_eq!(Duration::from_micros(5).as_nanos(), 5_000);
    assert_eq!(Duration::from_nanos(1_999_999_999).as_secs(), 1);
    assert_eq!(Duration::max().saturating_add(Duration::from_secs(1)), Duration::max());
    assert_eq!(Duration::from_secs(1).saturating_sub(Duration::from_secs(2)), Duration::zero());
    assert_eq!(Duration::from_secs(3).min(Duration::from_secs(2)), Duration::from_secs(2));
    assert_eq!(at(1).saturating_duration_since(at(2)), Duration::zero());
    let far = Instant::from_nanos(u64::MAX).checked_add(Duration::from_nanos(1)).unwrap();
    assert_eq!(far.as_nanos(), u64::MAX as u128 + 1);
    assert!(Instant::from_nanos(0).checked_add(Duration::max()).is_some());
    assert_eq!(Instant::from_nanos(1).checked_add(Duration::max()), None);
}
