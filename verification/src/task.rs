//! The state of a task and of the handle that waits for it.
use vstd::prelude::*;

verus! {

/// Where a task stands: whether it is in the run queue, whether it is over, and whether it was
/// called off.
#[derive(Debug, Clone, Copy, PartialEq, Eq, Structural)]
pub struct RawTask {
    pub enqueued: bool,
    pub completed: bool,
    pub cancelled: bool,
}

impl RawTask {
    /// A task that was just spawned: it is in the run queue.
    pub fn new() -> (r: Self)
        ensures
            r.enqueued,
            !r.completed,
            !r.cancelled,
            r.live(),
    {
        Self { enqueued: true, completed: false, cancelled: false }
    }

    /// Whether the task still runs.
    pub open spec fn live(self) -> bool {
        !self.completed && !self.cancelled
    }

    /// Whether the task still runs, so that it is to be polled.
    pub fn is_live(&self) -> (r: bool)
        ensures
            r == self.live(),
            r <==> !self.completed && !self.cancelled,
    {
        !self.completed && !self.cancelled
    }

    /// Takes what polling a task came to, and says whether the task is over. A task that does
    /// not run any more is not polled, and stays over.
    pub fn polled(&mut self, ready: bool) -> (r: bool)
        ensures
            r == (!old(self).live() || ready),
            final(self).enqueued == old(self).enqueued,
            final(self).cancelled == old(self).cancelled,
            final(self).completed == (old(self).completed || (old(self).live() && ready)),
            r <==> !final(self).live(),
    {
        if !self.is_live() {
            return true;
        }
        if ready {
            self.completed = true;
        }
        ready
    }

    /// The task was taken out of the run queue.
    pub fn set_dequeued(&mut self)
        ensures
            *final(self) == (RawTask { enqueued: false, ..*old(self) }),
    {
        self.enqueued = false;
    }

    /// The task is woken. Says whether it is to be put into the run queue: not if it is there.
    pub fn wake(&mut self) -> (r: bool)
        ensures
            r == !old(self).enqueued,
            *final(self) == (RawTask { enqueued: true, ..*old(self) }),
    {
        if !self.enqueued {
            self.enqueued = true;
            true
        } else {
            false
        }
    }
}

/// Why a task has no result.
#[derive(Debug)]
pub enum JoinError {
    Panicked(String),
}

/// What a task leaves to its handle: nothing yet, with or without somebody to wake, or an
/// outcome, until it is taken.
pub enum TaskState<T, W> {
    Running(Option<W>),
    Completed(Result<T, JoinError>),
    Taken,
}

/// What asking a handle came to.
pub enum JoinStep<T> {
    Ready(Result<T, JoinError>),
    Pending,
}

impl<T, W> TaskState<T, W> {
    /// The state of a task that was just spawned.
    pub fn new() -> (r: Self)
        ensures
            r == TaskState::<T, W>::Running(None),
    {
        TaskState::Running(None)
    }

    /// Whether the task is over.
    pub fn is_completed(&self) -> (r: bool)
        ensures
            r == !(self is Running),
    {
        match self {
            TaskState::Running(_) => false,
            _ => true,
        }
    }

    /// The task is over. Leaves the outcome, and gives whom to wake.
    pub fn complete(&mut self, outcome: Result<T, JoinError>) -> (r: Option<W>)
        ensures
            *final(self) == TaskState::<T, W>::Completed(outcome),
            r == (match *old(self) {
                TaskState::Running(w) => w,
                _ => None,
            }),
    {
        let mut state = TaskState::Completed(outcome);
        std::mem::swap(&mut state, self);
        match state {
            TaskState::Running(w) => w,
            _ => None,
        }
    }

    /// Asks for the outcome: takes it, or leaves whom to wake. The outcome is taken once.
    pub fn poll_join(&mut self, waker: W) -> (r: JoinStep<T>)
        requires
            !(*old(self) is Taken),
        ensures
            match *old(self) {
                TaskState::Completed(outcome) => r == JoinStep::Ready(outcome) && *final(self)
                    is Taken,
                _ => r is Pending && *final(self) == TaskState::<T, W>::Running(Some(waker)),
            },
    {
        let mut state = TaskState::Taken;
        std::mem::swap(&mut state, self);
        match state {
            TaskState::Completed(outcome) => JoinStep::Ready(outcome),
            _ => {
                *self = TaskState::Running(Some(waker));
                JoinStep::Pending
            },
        }
    }
}

/// A handle to wait for a task with, over the state `S` that it shares with the task. Dropping
/// it calls the task off, unless it was let go.
pub struct JoinHandle<S> {
    state: S,
    detached: bool,
}

impl<S> JoinHandle<S> {
    pub closed spec fn shared(self) -> S {
        self.state
    }

    /// Whether the task was let go.
    pub closed spec fn lets_go(self) -> bool {
        self.detached
    }

    pub fn new(state: S) -> (r: Self)
        ensures
            r.shared() == state,
            !r.lets_go(),
    {
        Self { state, detached: false }
    }

    /// The state that the handle shares with the task.
    pub fn state(&self) -> (r: &S)
        ensures
            *r == self.shared(),
    {
        &self.state
    }

    /// Lets the task go: it runs on when the handle is dropped.
    pub fn detach(&mut self)
        ensures
            final(self).shared() == old(self).shared(),
            final(self).lets_go(),
    {
        self.detached = true;
    }

    /// Whether dropping the handle calls the task off, given whether the task is over: not if it
    /// was let go or is over.
    pub fn drop_cancels(&self, completed: bool) -> (r: bool)
        ensures
            r == (!self.lets_go() && !completed),
    {
        !self.detached && !completed
    }
}

/// A task runs until it is completed or called off, and not any more after either.
pub proof fn tasks_run_until_they_end(t: RawTask)
    ensures
        t.live() <==> !(t.completed || t.cancelled),
        !(RawTask { cancelled: true, ..t }).live(),
        !(RawTask { completed: true, ..t }).live(),
{
}

/// The outcome of a task is handed out once it is there, and who asked before is woken then.
pub proof fn outcomes_are_handed_out_once<T, W>(
    waker: W,
    asked: TaskState<T, W>,
    first: JoinStep<T>,
    outcome: Result<T, JoinError>,
    done: TaskState<T, W>,
    woken: Option<W>,
    over: bool,
    later: W,
    taken: TaskState<T, W>,
    second: JoinStep<T>,
)
    requires
        exists|m: &mut TaskState<T, W>|
            *m == TaskState::<T, W>::Running(None) && *final(m) == asked && #[trigger] call_ensures(
                TaskState::<T, W>::poll_join,
                (m, waker),
                first,
            ),
        exists|m: &mut TaskState<T, W>|
            *m == asked && *final(m) == done && #[trigger] call_ensures(
                TaskState::<T, W>::complete,
                (m, outcome),
                woken,
            ),
        call_ensures(TaskState::<T, W>::is_completed, (&done,), over),
        exists|m: &mut TaskState<T, W>|
            *m == done && *final(m) == taken && #[trigger] call_ensures(
                TaskState::<T, W>::poll_join,
                (m, later),
                second,
            ),
    ensures
        first is Pending,
        woken == Some(waker),
        over,
        second == JoinStep::Ready(outcome),
        taken is Taken,
{
}

/// Dropping the handle of a task calls it off, unless it was let go or is over.
pub proof fn dropping_calls_off<S>(
    h: JoinHandle<S>,
    completed: bool,
    kept: bool,
    free: JoinHandle<S>,
    loose: bool,
)
    requires
        !h.lets_go(),
        call_ensures(JoinHandle::<S>::drop_cancels, (&h, completed), kept),
        exists|m: &mut JoinHandle<S>|
            *m == h && *final(m) == free && #[trigger] call_ensures(
                JoinHandle::<S>::detach,
                (m,),
                (),
            ),
        call_ensures(JoinHandle::<S>::drop_cancels, (&free, completed), loose),
    ensures
        kept <==> !completed,
        !loose,
        free.shared() == h.shared(),
{
}

} // verus!
