//! The threads of a node.
use crate::text::{decimal, decimal_is_injective, push_decimal};
use crate::process::ProcessId;
use crate::time::Duration;
use vstd::prelude::*;
use vstd::string::*;

verus! {

/// How one thread of a node is set up: its number, and its name.
#[derive(Debug)]
pub struct ThreadPlan {
    pub thread_id: u16,
    pub name: String,
}

/// The name of the thread with the given index.
pub open spec fn thread_name(index: nat) -> Seq<char> {
    "rebar-"@ + decimal(index)
}

/// How the threads of a node are set up: they are numbered and named from zero on. A number has
/// sixteen bits, so that it starts over after the last one.
pub fn thread_plan(num_threads: usize) -> (r: Vec<ThreadPlan>)
    ensures
        r@.len() == num_threads,
        forall|i: int|
            0 <= i < r@.len() ==> (#[trigger] r@[i]).thread_id == i % 0x1_0000 && r@[i].name@
                == thread_name(i as nat),
{
    let mut out: Vec<ThreadPlan> = Vec::new();
    let mut i: usize = 0;
    while i < num_threads
        invariant
            i <= num_threads,
            out@.len() == i,
            forall|j: int|
                0 <= j < out@.len() ==> (#[trigger] out@[j]).thread_id == j % 0x1_0000
                    && out@[j].name@ == thread_name(j as nat),
        decreases num_threads - i,
    {
        let mut name = String::new();
        name.append("rebar-");
        push_decimal(&mut name, i as u64);
        assert(name@ =~= thread_name(i as nat));
        let thread_id: u16 = (i % 0x1_0000) as u16;
        out.push(ThreadPlan { thread_id, name });
        i = i + 1;
    }
    out
}

/// What the loops of a thread do next.
pub enum LoopStep {
    /// Deliver the messages of other threads, and look again after so long.
    DrainThenWait(Duration),
    /// Wait for so long, deliver the messages of other threads, and look again.
    WaitThenDrain(Duration),
    /// Deliver the messages of other threads a last time, and end.
    DrainAndEnd,
    /// End.
    End,
}

/// What the loop that delivers the messages of other threads does next: it goes round ten
/// thousand times a second until the node shuts down.
pub fn drain_step(shutting_down: bool) -> (r: LoopStep)
    ensures
        if shutting_down {
            r is End
        } else {
            r matches LoopStep::DrainThenWait(d) && d@ == 100_000
        },
{
    if shutting_down {
        LoopStep::End
    } else {
        LoopStep::DrainThenWait(Duration::from_micros(100))
    }
}

/// What the loop that keeps a thread alive does next: it goes round a hundred times a second
/// until the node shuts down, and then delivers what is left.
pub fn keep_alive_step(shutting_down: bool) -> (r: LoopStep)
    ensures
        if shutting_down {
            r is DrainAndEnd
        } else {
            r matches LoopStep::WaitThenDrain(d) && d@ == 10_000_000
        },
{
    if shutting_down {
        LoopStep::DrainAndEnd
    } else {
        LoopStep::WaitThenDrain(Duration::from_millis(10))
    }
}

/// Where a thread finds a process.
#[derive(Debug, Clone, Copy, PartialEq, Eq, Structural)]
pub enum ThreadRoute {
    /// In its own table.
    Here,
    /// On another thread of the node.
    Thread(u16),
    /// Nowhere: the node has no such thread.
    Nowhere,
}

/// Where the thread with a number finds a process, on a node with so many threads.
pub fn thread_route(own: u16, threads: usize, to: ProcessId) -> (r: ThreadRoute)
    ensures
        r == (if to.thread() == own {
            ThreadRoute::Here
        } else if to.thread() < threads {
            ThreadRoute::Thread(to.thread())
        } else {
            ThreadRoute::Nowhere
        }),
{
    let thread: u16 = to.thread_id();
    if thread == own {
        ThreadRoute::Here
    } else if (thread as usize) < threads {
        ThreadRoute::Thread(thread)
    } else {
        ThreadRoute::Nowhere
    }
}

/// A process is found on the thread that it is of: in the own table where that is the own thread,
/// on another thread where the node has it, and nowhere else.
pub proof fn processes_are_found_on_their_thread(
    own: u16,
    threads: usize,
    to: ProcessId,
    r: ThreadRoute,
)
    requires
        call_ensures(thread_route, (own, threads, to), r),
    ensures
        r == ThreadRoute::Here <==> to.thread() == own,
        r matches ThreadRoute::Thread(t) ==> t == to.thread() && t != own && t < threads,
        r == ThreadRoute::Nowhere <==> to.thread() != own && to.thread() >= threads,
{
}

/// As many threads are set up as are asked for, and none is named or, up to the largest number,
/// numbered like another.
pub proof fn threads_are_told_apart(
    n: usize,
    r: Vec<ThreadPlan>,
    i: int,
    j: int,
)
    requires
        call_ensures(thread_plan, (n,), r),
        0 <= i < j < r@.len(),
    ensures
        r@.len() == n,
        r@[i].name@ != r@[j].name@,
        j < 0x1_0000 ==> r@[i].thread_id == i && r@[j].thread_id == j,
{
    let a = r@[i];
    let b = r@[j];
    if a.name@ == b.name@ {
        let k = "rebar-"@.len() as int;
        assert(thread_name(i as nat).skip(k) =~= decimal(i as nat));
        assert(thread_name(j as nat).skip(k) =~= decimal(j as nat));
        decimal_is_injective(i as nat, j as nat);
    }
}

/// The loops of a thread go on until the node shuts down; the one that keeps it alive delivers a
/// last time.
pub proof fn loops_end_with_the_node(
    down: bool,
    a: LoopStep,
    b: LoopStep,
)
    requires
        call_ensures(drain_step, (down,), a),
        call_ensures(keep_alive_step, (down,), b),
    ensures
        a is End <==> down,
        b is DrainAndEnd <==> down,
        !down ==> a is DrainThenWait && b is WaitThenDrain,
{
}

} // verus!
