//! The state of the watcher.
use crate::events::LifecycleEvent;
use crate::process::ProcessId;
use crate::text::{before, before_is_strict, before_is_total, before_is_transitive, str_before};
use std::collections::VecDeque;
use vstd::prelude::*;
use vstd::view::View as _;

verus! {

/// The largest number of events that are kept.
pub const MAX_EVENTS: usize = 1000;

/// How the watcher is set up.
#[derive(Debug, Clone, Copy, PartialEq, Eq, Structural)]
pub struct WatcherTuiConfig {
    /// How long it waits for a key before it looks again.
    pub tick_rate_ms: u64,
}

impl Default for WatcherTuiConfig {
    fn default() -> (r: Self)
        ensures
            r.tick_rate_ms == 250,
    {
        Self { tick_rate_ms: 250 }
    }
}

/// What is known of a process.
#[derive(Debug)]
pub struct ProcessInfo {
    pub pid: ProcessId,
    pub name: Option<String>,
    pub parent: Option<ProcessId>,
    pub uptime_ms: u64,
    pub is_supervisor: bool,
}

/// What is shown.
#[derive(Debug, Clone, Copy, PartialEq, Eq, Structural)]
pub enum View {
    Tree,
    List,
    Events,
}

impl View {
    /// The place of the view among the tabs.
    pub fn tab_index(&self) -> (r: usize)
        ensures
            r == (match *self {
                View::Tree => 0usize,
                View::List => 1,
                View::Events => 2,
            }),
    {
        match self {
            View::Tree => 0,
            View::List => 1,
            View::Events => 2,
        }
    }
}

/// What the processes are sorted by.
#[derive(Debug, Clone, Copy, PartialEq, Eq, Structural)]
pub enum SortColumn {
    Pid,
    Name,
    Parent,
    Uptime,
    Type,
}

impl SortColumn {
    /// The column after this one.
    pub open spec fn successor(self) -> SortColumn {
        match self {
            SortColumn::Pid => SortColumn::Name,
            SortColumn::Name => SortColumn::Parent,
            SortColumn::Parent => SortColumn::Uptime,
            SortColumn::Uptime => SortColumn::Type,
            SortColumn::Type => SortColumn::Pid,
        }
    }

    /// The heading of the column.
    pub open spec fn heading(self) -> Seq<char> {
        match self {
            SortColumn::Pid => "PID"@,
            SortColumn::Name => "Name"@,
            SortColumn::Parent => "Parent"@,
            SortColumn::Uptime => "Uptime"@,
            SortColumn::Type => "Type"@,
        }
    }

    /// The column after this one; the first comes after the last.
    pub fn next(&self) -> (r: Self)
        ensures
            r == self.successor(),
    {
        match self {
            SortColumn::Pid => SortColumn::Name,
            SortColumn::Name => SortColumn::Parent,
            SortColumn::Parent => SortColumn::Uptime,
            SortColumn::Uptime => SortColumn::Type,
            SortColumn::Type => SortColumn::Pid,
        }
    }

    /// The heading of the column.
    pub fn label(&self) -> (r: &'static str)
        ensures
            r@ == self.heading(),
    {
        match self {
            SortColumn::Pid => "PID",
            SortColumn::Name => "Name",
            SortColumn::Parent => "Parent",
            SortColumn::Uptime => "Uptime",
            SortColumn::Type => "Type",
        }
    }
}

/// Going to the next column goes through all five, and comes back.
pub proof fn columns_come_round(c: SortColumn)
    ensures
        c.successor() != c,
        c.successor().successor() != c,
        c.successor().successor().successor() != c,
        c.successor().successor().successor().successor() != c,
        c.successor().successor().successor().successor().successor() == c,
{
}

/// The name that a process is sorted by.
pub open spec fn name_key(p: ProcessInfo) -> Seq<char> {
    match p.name {
        Some(n) => n@,
        None => ""@,
    }
}

/// The number of the parent that a process is sorted by.
pub open spec fn parent_key(p: ProcessInfo) -> u64 {
    match p.parent {
        Some(pp) => pp.local(),
        None => 0,
    }
}

/// Whether a process comes before another by a column. Supervisors come before others.
pub open spec fn precedes(c: SortColumn, a: ProcessInfo, b: ProcessInfo) -> bool {
    match c {
        SortColumn::Pid => a.pid.local() < b.pid.local(),
        SortColumn::Name => before(name_key(a), name_key(b)),
        SortColumn::Parent => parent_key(a) < parent_key(b),
        SortColumn::Uptime => a.uptime_ms < b.uptime_ms,
        SortColumn::Type => a.is_supervisor && !b.is_supervisor,
    }
}

/// Whether a list is another one sorted by a column, where `order` says which place each entry
/// had: entries that neither comes before the other keep their order.
pub open spec fn is_sorting(
    c: SortColumn,
    from: Seq<ProcessInfo>,
    to: Seq<ProcessInfo>,
    order: Seq<int>,
) -> bool {
    &&& order.len() == to.len()
    &&& order.no_duplicates()
    &&& forall|i: int|
        0 <= i < to.len() ==> 0 <= (#[trigger] order[i]) < from.len() && to[i] == from[order[i]]
    &&& forall|i: int, j: int|
        0 <= i < j < to.len() ==> !precedes(c, #[trigger] to[j], #[trigger] to[i])
    &&& forall|i: int, j: int|
        0 <= i < j < to.len() ==> precedes(c, to[i], to[j]) || (#[trigger] order[i]) < (
        #[trigger] order[j])
}

proof fn precedes_is_strict(c: SortColumn, a: ProcessInfo, b: ProcessInfo)
    requires
        precedes(c, a, b),
    ensures
        !precedes(c, b, a),
{
    if c == SortColumn::Name {
        before_is_strict(name_key(a), name_key(b));
    }
}

proof fn precedes_is_weak(c: SortColumn, a: ProcessInfo, b: ProcessInfo, m: ProcessInfo)
    requires
        precedes(c, a, b),
    ensures
        precedes(c, a, m) || precedes(c, m, b),
{
    if c == SortColumn::Name {
        before_is_total(name_key(a), name_key(m));
        if before(name_key(m), name_key(a)) {
            before_is_transitive(name_key(m), name_key(a), name_key(b));
        }
    }
}

/// Whether a process comes before another by a column.
fn comes_before(c: SortColumn, a: &ProcessInfo, b: &ProcessInfo) -> (r: bool)
    ensures
        r == precedes(c, *a, *b),
{
    match c {
        SortColumn::Pid => a.pid.local_id() < b.pid.local_id(),
        SortColumn::Name => {
            let x: &str = match &a.name {
                Some(n) => n.as_str(),
                None => "",
            };
            let y: &str = match &b.name {
                Some(n) => n.as_str(),
                None => "",
            };
            str_before(x, y)
        },
        SortColumn::Parent => {
            let x: u64 = match &a.parent {
                Some(p) => p.local_id(),
                None => 0,
            };
            let y: u64 = match &b.parent {
                Some(p) => p.local_id(),
                None => 0,
            };
            x < y
        },
        SortColumn::Uptime => a.uptime_ms < b.uptime_ms,
        SortColumn::Type => a.is_supervisor && !b.is_supervisor,
    }
}

proof fn insert_sorted(
    c: SortColumn,
    from: Seq<ProcessInfo>,
    to: Seq<ProcessInfo>,
    order: Seq<int>,
    k: int,
)
    requires
        to.len() < from.len(),
        is_sorting(c, from.take(to.len() as int), to, order),
        0 <= k <= to.len(),
        forall|j: int| k <= j < to.len() ==> precedes(c, from[to.len() as int], #[trigger] to[j]),
        k > 0 ==> !precedes(c, from[to.len() as int], to[k - 1]),
    ensures
        is_sorting(
            c,
            from.take(to.len() as int + 1),
            to.insert(k, from[to.len() as int]),
            order.insert(k, to.len() as int),
        ),
{
    let n = to.len() as int;
    let p = from[n];
    let t = to.insert(k, p);
    let o = order.insert(k, n);
    let f = from.take(n + 1);
    assert forall|i: int| 0 <= i < t.len() implies 0 <= (#[trigger] o[i]) < f.len() && t[i]
        == f[o[i]] by {
        if i < k {
            assert(o[i] == order[i]);
        } else if i > k {
            assert(o[i] == order[i - 1]);
        }
    }
    assert forall|i: int, j: int| 0 <= i < o.len() && 0 <= j < o.len() && i != j implies o[i]
        != o[j] by {
        let a = if i < k {
            i
        } else {
            i - 1
        };
        let b = if j < k {
            j
        } else {
            j - 1
        };
        if i != k && j != k {
            assert(order[a] != order[b]);
        } else if i == k {
            assert(order[b] < n);
        } else {
            assert(order[a] < n);
        }
    }
    assert forall|i: int| 0 <= i < k implies !precedes(c, p, #[trigger] to[i]) by {
        if i < k - 1 {
            if precedes(c, p, to[i]) {
                precedes_is_weak(c, p, to[i], to[k - 1]);
                assert(!precedes(c, to[k - 1], to[i]));
            }
        }
    }
    assert forall|i: int, j: int| 0 <= i < j < t.len() implies !precedes(
        c,
        #[trigger] t[j],
        #[trigger] t[i],
    ) by {
        if j == k {
            assert(t[i] == to[i]);
        } else if i == k {
            assert(t[j] == to[j - 1]);
            precedes_is_strict(c, p, to[j - 1]);
        } else {
            let a = if i < k {
                i
            } else {
                i - 1
            };
            let b = if j < k {
                j
            } else {
                j - 1
            };
            assert(t[i] == to[a]);
            assert(t[j] == to[b]);
        }
    }
    assert forall|i: int, j: int| 0 <= i < j < t.len() implies precedes(c, t[i], t[j]) || (
    #[trigger] o[i]) < (#[trigger] o[j]) by {
        if j == k {
            assert(o[i] == order[i]);
        } else if i == k {
            assert(t[j] == to[j - 1]);
        } else {
            let a = if i < k {
                i
            } else {
                i - 1
            };
            let b = if j < k {
                j
            } else {
                j - 1
            };
            assert(t[i] == to[a]);
            assert(t[j] == to[b]);
            assert(o[i] == order[a]);
            assert(o[j] == order[b]);
        }
    }
}

/// The last of the events, as many as there is room for.
pub open spec fn latest(events: Seq<LifecycleEvent>) -> Seq<LifecycleEvent> {
    if events.len() <= MAX_EVENTS {
        events
    } else {
        events.skip(events.len() - MAX_EVENTS)
    }
}

/// What the watcher shows and how far it is.
pub struct App {
    pub view: View,
    pub processes: Vec<ProcessInfo>,
    pub events: VecDeque<LifecycleEvent>,
    pub scroll_offset: usize,
    pub sort_column: SortColumn,
    pub should_quit: bool,
}

impl App {
    /// Validity: no more events are kept than there is room for.
    pub open spec fn wf(self) -> bool {
        self.events@.len() <= MAX_EVENTS
    }

    /// The watcher at its start: on the tree, by the processes' numbers, with nothing known.
    pub fn new() -> (r: Self)
        ensures
            r.wf(),
            r.view == View::Tree,
            r.processes@ == Seq::<ProcessInfo>::empty(),
            r.events@ == Seq::<LifecycleEvent>::empty(),
            r.scroll_offset == 0,
            r.sort_column == SortColumn::Pid,
            !r.should_quit,
    {
        Self {
            view: View::Tree,
            processes: Vec::new(),
            events: VecDeque::new(),
            scroll_offset: 0,
            sort_column: SortColumn::Pid,
            should_quit: false,
        }
    }

    /// Whether another shows the same, but for the processes and the events.
    pub open spec fn same_position(self, other: App) -> bool {
        &&& self.view == other.view
        &&& self.scroll_offset == other.scroll_offset
        &&& self.sort_column == other.sort_column
        &&& self.should_quit == other.should_quit
    }

    /// Keeps an event. Where there is no room, the oldest one goes.
    pub fn push_event(&mut self, event: LifecycleEvent)
        requires
            old(self).wf(),
        ensures
            final(self).wf(),
            final(self).same_position(*old(self)),
            final(self).processes == old(self).processes,
            final(self).events@ == (if old(self).events@.len() >= MAX_EVENTS {
                old(self).events@.skip(1).push(event)
            } else {
                old(self).events@.push(event)
            }),
            final(self).events@.last() == event,
            old(self).events@.len() < MAX_EVENTS ==> final(self).events@.len()
                == old(self).events@.len() + 1,
    {
        if self.events.len() >= MAX_EVENTS {
            self.events.pop_front();
            assert(self.events@ =~= old(self).events@.skip(1));
        }
        self.events.push_back(event);
    }

    /// Sorts the processes by the column. Those that are alike keep their order.
    pub fn sort_processes(&mut self)
        ensures
            final(self).same_position(*old(self)),
            final(self).events == old(self).events,
            final(self).processes@.len() == old(self).processes@.len(),
            exists|order: Seq<int>| #[trigger]
                is_sorting(
                    old(self).sort_column,
                    old(self).processes@,
                    final(self).processes@,
                    order,
                ),
    {
        let c = self.sort_column;
        let ghost from = self.processes@;
        let ghost mut order: Seq<int> = Seq::empty();
        let mut rest: Vec<ProcessInfo> = Vec::new();
        std::mem::swap(&mut rest, &mut self.processes);
        let mut out: Vec<ProcessInfo> = Vec::new();
        let n: usize = rest.len();
        let mut i: usize = 0;
        assert(from.skip(0) =~= from);
        while i < n
            invariant
                n == from.len(),
                i <= n,
                rest@ == from.skip(i as int),
                out@.len() == i,
                is_sorting(c, from.take(i as int), out@, order),
                self.same_position(*old(self)),
                self.events == old(self).events,
            decreases n - i,
        {
            let p = rest.remove(0);
            assert(p == from[i as int]);
            assert(from.skip(i as int).remove(0) =~= from.skip(i + 1));
            let mut k: usize = i;
            while k > 0 && comes_before(c, &p, &out[k - 1])
                invariant
                    k <= i,
                    out@.len() == i,
                    forall|j: int| k <= j < i ==> precedes(c, p, #[trigger] out@[j]),
                decreases k,
            {
                k = k - 1;
            }
            proof {
                insert_sorted(c, from, out@, order, k as int);
                order = order.insert(k as int, i as int);
            }
            out.insert(k, p);
            i = i + 1;
        }
        assert(from.take(n as int) =~= from);
        self.processes = out;
        assert(is_sorting(c, from, self.processes@, order));
    }

    /// Goes up by one line, unless at the top.
    pub fn scroll_up(&mut self)
        ensures
            *final(self) == (App {
                scroll_offset: if old(self).scroll_offset > 0 {
                    (old(self).scroll_offset - 1) as usize
                } else {
                    0
                },
                ..*old(self)
            }),
    {
        if self.scroll_offset > 0 {
            self.scroll_offset = self.scroll_offset - 1;
        }
    }

    /// Goes down by one line, unless at the last of that many.
    pub fn scroll_down(&mut self, max: usize)
        ensures
            *final(self) == (App {
                scroll_offset: if old(self).scroll_offset + 1 < max {
                    (old(self).scroll_offset + 1) as usize
                } else {
                    old(self).scroll_offset
                },
                ..*old(self)
            }),
    {
        if max > 0 && self.scroll_offset < max - 1 {
            self.scroll_offset = self.scroll_offset + 1;
        }
    }

    /// Takes in what happened since the last look, and the processes as they are now; gives the
    /// number of lines of what is shown.
    pub fn refresh(&mut self, news: Vec<LifecycleEvent>, processes: Vec<ProcessInfo>) -> (r: usize)
        requires
            old(self).wf(),
        ensures
            final(self).wf(),
            final(self).same_position(*old(self)),
            final(self).events@ == latest(old(self).events@ + news@),
            final(self).processes@.len() == processes@.len(),
            exists|order: Seq<int>| #[trigger]
                is_sorting(old(self).sort_column, processes@, final(self).processes@, order),
            r == (match old(self).view {
                View::Events => final(self).events@.len(),
                _ => processes@.len(),
            }),
    {
        let ghost had = self.events@;
        let ghost all = news@;
        let mut news = news;
        let n: usize = news.len();
        let mut i: usize = 0;
        assert(had + all.take(0) =~= had);
        assert(all.skip(0) =~= all);
        while i < n
            invariant
                n == all.len(),
                i <= n,
                news@ == all.skip(i as int),
                self.wf(),
                self.same_position(*old(self)),
                self.events@ == latest(had + all.take(i as int)),
            decreases n - i,
        {
            let event = news.remove(0);
            assert(event == all[i as int]);
            assert(all.skip(i as int).remove(0) =~= all.skip(i + 1));
            assert(had + all.take(i + 1) =~= (had + all.take(i as int)).push(event));
            self.push_event(event);
            assert(self.events@ =~= latest((had + all.take(i as int)).push(event)));
            i = i + 1;
        }
        assert(all.take(n as int) =~= all);
        self.processes = processes;
        self.sort_processes();
        self.item_count()
    }

    /// The number of lines of what is shown.
    pub fn item_count(&self) -> (r: usize)
        ensures
            r == (match self.view {
                View::Events => self.events@.len(),
                _ => self.processes@.len(),
            }),
    {
        match self.view {
            View::Tree => self.processes.len(),
            View::List => self.processes.len(),
            View::Events => self.events.len(),
        }
    }
}

/// Sorting a sorted list changes nothing.
pub proof fn sorting_is_idempotent(
    c: SortColumn,
    from: Seq<ProcessInfo>,
    to: Seq<ProcessInfo>,
    order: Seq<int>,
)
    requires
        is_sorting(c, from, to, order),
        from.len() == to.len(),
        forall|i: int, j: int|
            0 <= i < j < from.len() ==> !precedes(c, #[trigger] from[j], #[trigger] from[i]),
    ensures
        to == from,
{
    let n = to.len() as int;
    assert forall|i: int, j: int| 0 <= i < j < n implies order[i] < order[j] by {
        if order[i] > order[j] {
            assert(to[i] == from[order[i]]);
            assert(to[j] == from[order[j]]);
            assert(precedes(c, to[i], to[j]));
            assert(!precedes(c, from[order[i]], from[order[j]]));
        } else {
            assert(order[i] != order[j]);
        }
    }
    increasing_is_identity(order, n, 0);
    assert forall|i: int| 0 <= i < n implies to[i] == from[i] by {
        assert(order[i] == i);
    }
    assert(to =~= from);
}

/// Numbers below a bound that increase at each of as many places are the places.
proof fn increasing_is_identity(order: Seq<int>, n: int, k: int)
    requires
        order.len() == n,
        0 <= k <= n,
        forall|i: int| 0 <= i < n ==> 0 <= #[trigger] order[i] < n,
        forall|i: int, j: int| 0 <= i < j < n ==> (#[trigger] order[i]) < (#[trigger] order[j]),
        forall|i: int| 0 <= i < k ==> #[trigger] order[i] == i,
    ensures
        forall|i: int| 0 <= i < n ==> #[trigger] order[i] == i,
    decreases n - k,
{
    if k < n {
        if k > 0 {
            assert(order[k - 1] < order[k]);
        }
        assert(order[k] >= k);
        spread(order, n, k, n - 1);
        assert(order[k] == k);
        increasing_is_identity(order, n, k + 1);
    }
}

proof fn spread(order: Seq<int>, n: int, k: int, j: int)
    requires
        order.len() == n,
        0 <= k <= j < n,
        forall|i: int| 0 <= i < n ==> 0 <= #[trigger] order[i] < n,
        forall|i: int, m: int| 0 <= i < m < n ==> (#[trigger] order[i]) < (#[trigger] order[m]),
    ensures
        order[j] - order[k] >= j - k,
    decreases j - k,
{
    if k < j {
        spread(order, n, k, j - 1);
        assert(order[j - 1] < order[j]);
    }
}

/// Sorted processes are in the order of what they are sorted by: the lower number, the earlier
/// name, the parent with the lower number or none, the shorter uptime, or the supervisors come
/// first; and those that are alike in that stay in the order in which they were.
pub proof fn sorted_processes_are_in_order(
    c: SortColumn,
    from: Seq<ProcessInfo>,
    to: Seq<ProcessInfo>,
    order: Seq<int>,
    i: int,
    j: int,
)
    requires
        is_sorting(c, from, to, order),
        0 <= i < j < to.len(),
    ensures
        to[i] == from[order[i]],
        match c {
            SortColumn::Pid => to[i].pid.local() <= to[j].pid.local(),
            SortColumn::Name => name_key(to[i]) == name_key(to[j]) || before(
                name_key(to[i]),
                name_key(to[j]),
            ),
            SortColumn::Parent => (match to[i].parent {
                Some(p) => p.local(),
                None => 0,
            }) <= (match to[j].parent {
                Some(p) => p.local(),
                None => 0,
            }),
            SortColumn::Uptime => to[i].uptime_ms <= to[j].uptime_ms,
            SortColumn::Type => to[j].is_supervisor ==> to[i].is_supervisor,
        },
        match c {
            SortColumn::Pid => to[i].pid.local() == to[j].pid.local(),
            SortColumn::Name => to[i].name is Some && to[j].name is Some && to[i].name->0@
                == to[j].name->0@,
            SortColumn::Parent => to[i].parent == to[j].parent,
            SortColumn::Uptime => to[i].uptime_ms == to[j].uptime_ms,
            SortColumn::Type => to[i].is_supervisor == to[j].is_supervisor,
        } ==> order[i] < order[j],
{
    assert(0 <= order[i] < from.len());
    assert(!precedes(c, to[j], to[i]));
    assert(precedes(c, to[i], to[j]) || order[i] < order[j]);
    if c == SortColumn::Name {
        before_is_total(name_key(to[i]), name_key(to[j]));
        if before(name_key(to[i]), name_key(to[j])) {
            before_is_strict(name_key(to[i]), name_key(to[j]));
        }
    }
}

/// Sorting loses no process and adds none: each one is in the sorted list.
pub proof fn sorting_keeps_every_process(
    c: SortColumn,
    from: Seq<ProcessInfo>,
    to: Seq<ProcessInfo>,
    order: Seq<int>,
    k: int,
)
    requires
        is_sorting(c, from, to, order),
        from.len() == to.len(),
        0 <= k < from.len(),
    ensures
        to.contains(from[k]),
        order.contains(k),
{
    let n = from.len() as int;
    let all = vstd::set_lib::set_int_range(0, n);
    vstd::set_lib::lemma_int_range(0, n);
    order.unique_seq_to_set();
    assert(order.to_set().subset_of(all)) by {
        assert forall|x: int| order.to_set().contains(x) implies all.contains(x) by {
            let i = choose|i: int| 0 <= i < order.len() && order[i] == x;
            assert(0 <= order[i] < from.len());
        }
    }
    vstd::set_lib::lemma_subset_equality(order.to_set(), all);
    assert(all.contains(k));
    assert(order.to_set().contains(k));
    let i = choose|i: int| 0 <= i < order.len() && order[i] == k;
    assert(to[i] == from[order[i]]);
}

/// The latest events are the end of all, as many as there is room for: none is left out where
/// there is room for all, and the newest is always there.
pub proof fn latest_events_are_kept(events: Seq<LifecycleEvent>, event: LifecycleEvent)
    ensures
        latest(events).len() <= 1000,
        events.len() <= 1000 ==> latest(events) == events,
        events.len() >= 1000 ==> latest(events).len() == 1000,
        latest(events) == events.skip(events.len() - latest(events).len()),
        latest(events.push(event)).last() == event,
        latest(latest(events).push(event)) == latest(events.push(event)),
{
    if events.len() <= MAX_EVENTS {
        assert(events.skip(0) =~= events);
    } else {
        assert(latest(events).push(event).skip(1) =~= events.push(event).skip(
            events.len() + 1 - MAX_EVENTS,
        ));
    }
}

/// An event that was kept is the newest, and none is left out before there is no room.
pub proof fn kept_events_are_the_newest(
    before: App,
    event: LifecycleEvent,
    after: App,
)
    requires
        exists|m: &mut App|
            *m == before && *final(m) == after && #[trigger] call_ensures(
                App::push_event,
                (m, event),
                (),
            ),
    ensures
        after.events@.last() == event,
        before.events@.len() < 1000 ==> after.events@ == before.events@.push(event),
        before.events@.len() >= 1000 ==> after.events@.len() == before.events@.len(),
        after.processes == before.processes,
{
}

/// Scrolling goes by one line, down and up again to where it was, and stops at both ends.
pub proof fn scrolling_goes_by_lines(
    before: App,
    max: usize,
    down: App,
    up: App,
    top: App,
)
    requires
        exists|m: &mut App|
            *m == before && *final(m) == down && #[trigger] call_ensures(
                App::scroll_down,
                (m, max),
                (),
            ),
        exists|m: &mut App|
            *m == down && *final(m) == up && #[trigger] call_ensures(
                App::scroll_up,
                (m,),
                (),
            ),
        exists|m: &mut App|
            *m == before && *final(m) == top && #[trigger] call_ensures(
                App::scroll_up,
                (m,),
                (),
            ),
    ensures
        before.scroll_offset + 1 < max ==> down.scroll_offset == before.scroll_offset + 1 && up == before,
        before.scroll_offset + 1 >= max ==> down == before,
        before.scroll_offset > 0 ==> top.scroll_offset == before.scroll_offset - 1,
        before.scroll_offset == 0 ==> top == before,
{
}

/// After a look the watcher knows the processes as they are now, sorted, and its events and the
/// news, as many as there is room for; it shows as many lines as it says.
pub proof fn looks_take_in_what_is_new(
    before: App,
    news: Vec<LifecycleEvent>,
    processes: Vec<ProcessInfo>,
    after: App,
    r: usize,
    n: usize,
)
    requires
        exists|m: &mut App|
            *m == before && *final(m) == after && #[trigger] call_ensures(
                App::refresh,
                (m, news, processes),
                r,
            ),
        call_ensures(App::item_count, (&after,), n),
    ensures
        r == n,
        after.processes@.len() == processes@.len(),
        before.events@.len() + news@.len() <= 1000 ==> after.events@ == before.events@ + news@,
        after.events@.len() <= 1000,
        news@.len() > 0 ==> after.events@.last() == news@.last(),
        after.view == before.view,
        after.scroll_offset == before.scroll_offset,
        before.view == View::Events ==> r == after.events@.len(),
        before.view != View::Events ==> r == processes@.len(),
{
    let all = before.events@ + news@;
    if news@.len() > 0 {
        assert(all.last() == news@.last());
        assert(all.drop_last().push(all.last()) =~= all);
        latest_events_are_kept(all.drop_last(), all.last());
    }
    latest_events_are_kept(all, arbitrary());
}

/// The tabs are numbered in the order tree, list and events; and the columns follow each other
/// from the number to the name, the parent, the uptime and the type.
pub proof fn tabs_and_columns_are_in_order(
    view: View,
    tab: usize,
    column: SortColumn,
    next: SortColumn,
)
    requires
        call_ensures(View::tab_index, (&view,), tab),
        call_ensures(SortColumn::next, (&column,), next),
    ensures
        view == View::Tree <==> tab == 0,
        view == View::List <==> tab == 1,
        view == View::Events <==> tab == 2,
        column == SortColumn::Pid <==> next == SortColumn::Name,
        column == SortColumn::Name <==> next == SortColumn::Parent,
        column == SortColumn::Parent <==> next == SortColumn::Uptime,
        column == SortColumn::Uptime <==> next == SortColumn::Type,
        column == SortColumn::Type <==> next == SortColumn::Pid,
{
}

/// A column is headed by its name.
pub proof fn columns_are_headed_by_name(
    c: SortColumn,
    r: &'static str,
)
    requires
        call_ensures(SortColumn::label, (&c,), r),
    ensures
        c == SortColumn::Pid ==> r@ == "PID"@,
        c == SortColumn::Name ==> r@ == "Name"@,
        c == SortColumn::Parent ==> r@ == "Parent"@,
        c == SortColumn::Uptime ==> r@ == "Uptime"@,
        c == SortColumn::Type ==> r@ == "Type"@,
{
}

/// Neither a look nor sorting changes the column, the view, the line or whether the watcher is to
/// quit.
pub proof fn looking_moves_nothing(
    before: App,
    news: Vec<LifecycleEvent>,
    processes: Vec<ProcessInfo>,
    after: App,
    r: usize,
    sorted: App,
)
    requires
        exists|m: &mut App|
            *m == before && *final(m) == after && #[trigger] call_ensures(
                App::refresh,
                (m, news, processes),
                r,
            ),
        exists|m: &mut App|
            *m == before && *final(m) == sorted && #[trigger] call_ensures(
                App::sort_processes,
                (m,),
                (),
            ),
    ensures
        after.sort_column == before.sort_column && sorted.sort_column == before.sort_column,
        after.should_quit == before.should_quit && sorted.should_quit == before.should_quit,
        after.view == before.view && sorted.view == before.view,
        after.scroll_offset == before.scroll_offset && sorted.scroll_offset == before.scroll_offset,
        sorted.events == before.events,
        sorted.processes@.len() == before.processes@.len(),
{
}

} // verus!
