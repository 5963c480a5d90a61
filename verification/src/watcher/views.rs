//! The lines that the watcher shows.
use crate::events::LifecycleEvent;
use crate::process::types::pid_text;
use crate::process::{ExitReason, ProcessId};
use crate::supervisor::spec::RestartStrategy;
use crate::text::{decimal, push_decimal};
use crate::watcher::app::{App, ProcessInfo};
use vstd::prelude::*;
use vstd::string::*;

verus! {

/// A span of milliseconds in its two largest units, or in one if it is short.
pub open spec fn uptime_text(ms: nat) -> Seq<char> {
    let s = ms / 1000;
    let m = s / 60;
    if ms < 1000 {
        decimal(ms) + "ms"@
    } else if s < 60 {
        decimal(s) + "s"@
    } else if m < 60 {
        decimal(m) + "m "@ + decimal(s % 60) + "s"@
    } else {
        decimal(m / 60) + "h "@ + decimal(m % 60) + "m"@
    }
}

/// A span of milliseconds, for people to read.
pub fn format_uptime(ms: u64) -> (r: String)
    ensures
        r@ == uptime_text(ms as nat),
{
    let mut out = String::new();
    let s: u64 = ms / 1000;
    let m: u64 = s / 60;
    if ms < 1000 {
        push_decimal(&mut out, ms);
        out.append("ms");
    } else if s < 60 {
        push_decimal(&mut out, s);
        out.append("s");
    } else if m < 60 {
        push_decimal(&mut out, m);
        out.append("m ");
        push_decimal(&mut out, s % 60);
        out.append("s");
    } else {
        push_decimal(&mut out, m / 60);
        out.append("h ");
        push_decimal(&mut out, m % 60);
        out.append("m");
    }
    assert(out@ =~= uptime_text(ms as nat));
    out
}

/// The notation of a process by its node and its number there.
pub open spec fn short_pid(pid: ProcessId) -> Seq<char> {
    "<"@ + pid_key(pid) + ">"@
}

/// The node of a process and its number there, with a dot between them.
pub open spec fn pid_key(pid: ProcessId) -> Seq<char> {
    decimal(pid.node() as nat) + "."@ + decimal(pid.local() as nat)
}

fn push_short_pid(out: &mut String, pid: &ProcessId)
    ensures
        final(out)@ == old(out)@ + short_pid(*pid),
{
    out.append("<");
    push_decimal(out, pid.node_id());
    out.append(".");
    push_decimal(out, pid.local_id());
    out.append(">");
    assert(out@ =~= old(out)@ + short_pid(*pid));
}

fn short_pid_string(pid: &ProcessId) -> (r: String)
    ensures
        r@ == short_pid(*pid),
{
    let mut out = String::new();
    push_short_pid(&mut out, pid);
    assert(out@ =~= short_pid(*pid));
    out
}

/// A line of the list of processes.
pub struct ListRow {
    pub pid: String,
    pub name: String,
    pub parent: String,
    pub uptime: String,
    pub kind: String,
}

/// Whether a line shows a process.
pub open spec fn shows(row: ListRow, p: ProcessInfo) -> bool {
    &&& row.pid@ == short_pid(p.pid)
    &&& row.name@ == (match p.name {
        Some(n) => n@,
        None => "-"@,
    })
    &&& row.parent@ == (match p.parent {
        Some(pp) => short_pid(pp),
        None => "-"@,
    })
    &&& row.uptime@ == uptime_text(p.uptime_ms as nat)
    &&& row.kind@ == (if p.is_supervisor {
        "supervisor"@
    } else {
        "process"@
    })
}

/// The line for a process.
pub fn list_row(p: &ProcessInfo) -> (r: ListRow)
    ensures
        shows(r, *p),
{
    let name = match &p.name {
        Some(n) => n.clone(),
        None => "-".to_string(),
    };
    let parent = match &p.parent {
        Some(pp) => short_pid_string(pp),
        None => "-".to_string(),
    };
    let kind = if p.is_supervisor {
        "supervisor".to_string()
    } else {
        "process".to_string()
    };
    ListRow {
        pid: short_pid_string(&p.pid),
        name,
        parent,
        uptime: format_uptime(p.uptime_ms),
        kind,
    }
}

/// The number of lines that are left of so many from a place on.
pub open spec fn left_from(len: nat, offset: usize) -> int {
    if offset <= len {
        len - offset
    } else {
        0
    }
}

/// The lines of the list of processes, from where it is scrolled to.
pub fn list_rows(app: &App) -> (r: Vec<ListRow>)
    ensures
        r@.len() == left_from(app.processes@.len(), app.scroll_offset),
        app.scroll_offset <= app.processes@.len() ==> r@.len() + app.scroll_offset
            == app.processes@.len(),
        app.scroll_offset >= app.processes@.len() ==> r@.len() == 0,
        forall|i: int|
            0 <= i < r@.len() ==> shows(
                #[trigger] r@[i],
                app.processes@[app.scroll_offset + i],
            ),
{
    let mut out: Vec<ListRow> = Vec::new();
    let n: usize = app.processes.len();
    let mut i: usize = app.scroll_offset;
    while i < n
        invariant
            n == app.processes@.len(),
            app.scroll_offset <= i,
            i <= n || i == app.scroll_offset,
            out@.len() == i - app.scroll_offset,
            forall|j: int|
                0 <= j < out@.len() ==> shows(
                    #[trigger] out@[j],
                    app.processes@[app.scroll_offset + j],
                ),
        decreases n - i,
    {
        out.push(list_row(&app.processes[i]));
        i = i + 1;
    }
    out
}

/// The title of the list of processes.
pub fn list_title(app: &App) -> (r: String)
    ensures
        r@ == " Process List (sort: "@ + app.sort_column.heading() + ", press 's' to cycle) "@,
{
    let mut out = String::new();
    out.append(" Process List (sort: ");
    out.append(app.sort_column.label());
    out.append(", press 's' to cycle) ");
    assert(out@ =~= " Process List (sort: "@ + app.sort_column.heading()
        + ", press 's' to cycle) "@);
    out
}

/// The title of the watcher.
pub fn watcher_title(app: &App) -> (r: String)
    ensures
        r@ == " Rebar Watcher | "@ + decimal(app.processes@.len()) + " processes "@,
{
    let mut out = String::new();
    out.append(" Rebar Watcher | ");
    push_decimal(&mut out, app.processes.len() as u64);
    out.append(" processes ");
    assert(out@ =~= " Rebar Watcher | "@ + decimal(app.processes@.len()) + " processes "@);
    out
}

/// The title of the list of events.
pub fn event_log_title(app: &App) -> (r: String)
    ensures
        r@ == " Event Log ("@ + decimal(app.events@.len()) + " events) "@,
{
    let mut out = String::new();
    out.append(" Event Log (");
    push_decimal(&mut out, app.events.len() as u64);
    out.append(" events) ");
    assert(out@ =~= " Event Log ("@ + decimal(app.events@.len()) + " events) "@);
    out
}

/// The colours of events.
#[derive(Debug, Clone, Copy, PartialEq, Eq, Structural)]
pub enum EventColor {
    Green,
    Red,
    Yellow,
    Magenta,
}

/// The label of an event.
pub open spec fn event_label(event: LifecycleEvent) -> Seq<char> {
    match event_color(event) {
        EventColor::Green => "SPAWN"@,
        EventColor::Red => "EXIT"@,
        EventColor::Yellow => "RESTART"@,
        EventColor::Magenta => "SUPER"@,
    }
}

/// The colour of an event: what starts is green, what ends is red.
pub open spec fn event_color(event: LifecycleEvent) -> EventColor {
    match event {
        LifecycleEvent::ProcessSpawned { .. } => EventColor::Green,
        LifecycleEvent::ChildStarted { .. } => EventColor::Green,
        LifecycleEvent::ProcessExited { .. } => EventColor::Red,
        LifecycleEvent::ChildExited { .. } => EventColor::Red,
        LifecycleEvent::SupervisorMaxRestartsExceeded { .. } => EventColor::Red,
        LifecycleEvent::ChildRestarted { .. } => EventColor::Yellow,
        LifecycleEvent::SupervisorStarted { .. } => EventColor::Magenta,
    }
}

/// The label of an event, and its colour.
pub fn event_style(event: &LifecycleEvent) -> (r: (&'static str, EventColor))
    ensures
        r.0@ == event_label(*event),
        r.1 == event_color(*event),
{
    match event {
        LifecycleEvent::ProcessSpawned { .. } => ("SPAWN", EventColor::Green),
        LifecycleEvent::ChildStarted { .. } => ("SPAWN", EventColor::Green),
        LifecycleEvent::ProcessExited { .. } => ("EXIT", EventColor::Red),
        LifecycleEvent::ChildExited { .. } => ("EXIT", EventColor::Red),
        LifecycleEvent::SupervisorMaxRestartsExceeded { .. } => ("EXIT", EventColor::Red),
        LifecycleEvent::ChildRestarted { .. } => ("RESTART", EventColor::Yellow),
        LifecycleEvent::SupervisorStarted { .. } => ("SUPER", EventColor::Magenta),
    }
}

/// A text in quotes, with what cannot be shown escaped, as std writes it.
pub uninterp spec fn quoted_text(s: Seq<char>) -> Seq<char>;

/// The `Debug` notation of a text. Claimed: it depends on the text alone.
#[verifier::external_body]
fn quoted(s: &str) -> (r: String)
    ensures
        r@ == quoted_text(s@),
{
    format!("{:?}", s)
}

/// The notation of a process with the names of its numbers.
pub open spec fn pid_fields(pid: ProcessId) -> Seq<char> {
    "ProcessId { node_id: "@ + decimal(pid.node() as nat) + ", thread_id: "@ + decimal(
        pid.thread() as nat,
    ) + ", local_id: "@ + decimal(pid.local() as nat) + " }"@
}

/// The notation of the reason why a process ended.
pub open spec fn reason_text(reason: ExitReason) -> Seq<char>
    decreases reason,
{
    match reason {
        ExitReason::Normal => "Normal"@,
        ExitReason::Abnormal(why) => "Abnormal("@ + quoted_text(why@) + ")"@,
        ExitReason::Kill => "Kill"@,
        ExitReason::LinkedExit(pid, inner) => "LinkedExit("@ + pid_fields(pid) + ", "@ + reason_text(
            *inner,
        ) + ")"@,
    }
}

/// Appends the notation of the reason why a process ended.
fn push_reason(out: &mut String, reason: &ExitReason)
    ensures
        final(out)@ == old(out)@ + reason_text(*reason),
    decreases *reason,
{
    match reason {
        ExitReason::Normal => {
            out.append("Normal");
        },
        ExitReason::Abnormal(why) => {
            out.append("Abnormal(");
            out.append(quoted(why.as_str()).as_str());
            out.append(")");
        },
        ExitReason::Kill => {
            out.append("Kill");
        },
        ExitReason::LinkedExit(pid, inner) => {
            out.append("LinkedExit(");
            out.append("ProcessId { node_id: ");
            push_decimal(out, pid.node_id());
            out.append(", thread_id: ");
            push_decimal(out, pid.thread_id() as u64);
            out.append(", local_id: ");
            push_decimal(out, pid.local_id());
            out.append(" }");
            out.append(", ");
            push_reason(out, &**inner);
            out.append(")");
        },
    }
    assert(out@ =~= old(out)@ + reason_text(*reason));
}

/// The notation of a strategy.
pub open spec fn strategy_text(s: RestartStrategy) -> Seq<char> {
    match s {
        RestartStrategy::OneForOne => "OneForOne"@,
        RestartStrategy::OneForAll => "OneForAll"@,
        RestartStrategy::RestForOne => "RestForOne"@,
    }
}

fn strategy_str(s: &RestartStrategy) -> (r: &'static str)
    ensures
        r@ == strategy_text(*s),
{
    match s {
        RestartStrategy::OneForOne => "OneForOne",
        RestartStrategy::OneForAll => "OneForAll",
        RestartStrategy::RestForOne => "RestForOne",
    }
}

/// Texts in a row, with a comma between them.
pub open spec fn joined(texts: Seq<String>) -> Seq<char>
    decreases texts.len(),
{
    if texts.len() == 0 {
        Seq::empty()
    } else if texts.len() == 1 {
        texts[0]@
    } else {
        joined(texts.drop_last()) + ", "@ + texts.last()@
    }
}

fn push_joined(out: &mut String, texts: &Vec<String>)
    ensures
        final(out)@ == old(out)@ + joined(texts@),
{
    let mut i: usize = 0;
    assert(texts@.take(0) =~= Seq::empty());
    while i < texts.len()
        invariant
            i <= texts@.len(),
            out@ =~= old(out)@ + joined(texts@.take(i as int)),
        decreases texts@.len() - i,
    {
        let ghost next = texts@.take(i + 1);
        assert(next.drop_last() =~= texts@.take(i as int));
        if i > 0 {
            out.append(", ");
        }
        out.append(texts[i].as_str());
        assert(out@ =~= old(out)@ + joined(next));
        i = i + 1;
    }
    assert(texts@.take(i as int) =~= texts@);
}

/// What is told of an event.
pub open spec fn detail_text(event: LifecycleEvent) -> Seq<char> {
    match event {
        LifecycleEvent::ProcessSpawned { pid, name, .. } => "Process "@ + pid_text(pid)
            + " spawned"@ + (match name {
            Some(n) => " ("@ + n@ + ")"@,
            None => Seq::empty(),
        }),
        LifecycleEvent::ProcessExited { pid, reason, .. } => "Process "@ + pid_text(pid)
            + " exited: "@ + reason_text(reason),
        LifecycleEvent::SupervisorStarted { pid, strategy, child_ids, .. } => "Supervisor "@
            + pid_text(pid) + " started ("@ + strategy_text(strategy) + ") children=["@ + joined(
            child_ids@,
        ) + "]"@,
        LifecycleEvent::ChildStarted { supervisor_pid, child_pid, child_id, .. } => "Child "@
            + child_id@ + " ("@ + pid_text(child_pid) + ") started under "@ + pid_text(
            supervisor_pid,
        ),
        LifecycleEvent::ChildExited { child_id, child_pid, reason, .. } => "Child "@ + child_id@
            + " ("@ + pid_text(child_pid) + ") exited: "@ + reason_text(reason),
        LifecycleEvent::ChildRestarted { child_id, old_pid, new_pid, restart_count, .. } => "Child "@
            + child_id@ + " restarted "@ + pid_text(old_pid) + " -> "@ + pid_text(new_pid) + " (#"@
            + decimal(restart_count as nat) + ")"@,
        LifecycleEvent::SupervisorMaxRestartsExceeded { pid, .. } => "Supervisor "@ + pid_text(pid)
            + " max restarts exceeded"@,
    }
}

/// What is told of an event.
pub fn event_detail(event: &LifecycleEvent) -> (r: String)
    ensures
        r@ == detail_text(*event),
{
    let mut out = String::new();
    match event {
        LifecycleEvent::ProcessSpawned { pid, name, .. } => {
            out.append("Process ");
            out.append(pid.to_string().as_str());
            out.append(" spawned");
            match name {
                Some(n) => {
                    out.append(" (");
                    out.append(n.as_str());
                    out.append(")");
                },
                None => {},
            }
        },
        LifecycleEvent::ProcessExited { pid, reason, .. } => {
            out.append("Process ");
            out.append(pid.to_string().as_str());
            out.append(" exited: ");
            push_reason(&mut out, reason);
        },
        LifecycleEvent::SupervisorStarted { pid, strategy, child_ids, .. } => {
            out.append("Supervisor ");
            out.append(pid.to_string().as_str());
            out.append(" started (");
            out.append(strategy_str(strategy));
            out.append(") children=[");
            push_joined(&mut out, child_ids);
            out.append("]");
        },
        LifecycleEvent::ChildStarted { supervisor_pid, child_pid, child_id, .. } => {
            out.append("Child ");
            out.append(child_id.as_str());
            out.append(" (");
            out.append(child_pid.to_string().as_str());
            out.append(") started under ");
            out.append(supervisor_pid.to_string().as_str());
        },
        LifecycleEvent::ChildExited { child_id, child_pid, reason, .. } => {
            out.append("Child ");
            out.append(child_id.as_str());
            out.append(" (");
            out.append(child_pid.to_string().as_str());
            out.append(") exited: ");
            push_reason(&mut out, reason);
        },
        LifecycleEvent::ChildRestarted { child_id, old_pid, new_pid, restart_count, .. } => {
            out.append("Child ");
            out.append(child_id.as_str());
            out.append(" restarted ");
            out.append(old_pid.to_string().as_str());
            out.append(" -> ");
            out.append(new_pid.to_string().as_str());
            out.append(" (#");
            push_decimal(&mut out, *restart_count as u64);
            out.append(")");
        },
        LifecycleEvent::SupervisorMaxRestartsExceeded { pid, .. } => {
            out.append("Supervisor ");
            out.append(pid.to_string().as_str());
            out.append(" max restarts exceeded");
        },
    }
    assert(out@ =~= detail_text(*event));
    out
}

/// A line of the list of events.
pub struct EventLine {
    pub label: &'static str,
    pub color: EventColor,
    pub detail: String,
}

/// Whether a line tells of an event.
pub open spec fn tells(line: EventLine, event: LifecycleEvent) -> bool {
    &&& line.label@ == event_label(event)
    &&& line.color == event_color(event)
    &&& line.detail@ == detail_text(event)
}

/// The lines of the list of events, the newest first, from where it is scrolled to.
pub fn event_lines(app: &App) -> (r: Vec<EventLine>)
    ensures
        r@.len() == left_from(app.events@.len(), app.scroll_offset),
        app.scroll_offset <= app.events@.len() ==> r@.len() + app.scroll_offset
            == app.events@.len(),
        app.scroll_offset >= app.events@.len() ==> r@.len() == 0,
        forall|i: int|
            0 <= i < r@.len() ==> tells(
                #[trigger] r@[i],
                app.events@[app.events@.len() - 1 - app.scroll_offset - i],
            ),
{
    let mut out: Vec<EventLine> = Vec::new();
    let n: usize = app.events.len();
    let mut i: usize = app.scroll_offset;
    while i < n
        invariant
            n == app.events@.len(),
            app.scroll_offset <= i,
            i <= n || i == app.scroll_offset,
            out@.len() == i - app.scroll_offset,
            forall|j: int|
                0 <= j < out@.len() ==> tells(
                    #[trigger] out@[j],
                    app.events@[n - 1 - app.scroll_offset - j],
                ),
        decreases n - i,
    {
        let event = &app.events[n - 1 - i];
        let (label, color) = event_style(event);
        let detail = event_detail(event);
        out.push(EventLine { label, color, detail });
        i = i + 1;
    }
    out
}

/// A line of the tree of processes: its text, and how deep it is.
#[derive(Debug)]
pub struct TreeLine {
    pub text: String,
    pub depth: usize,
}

/// The content of a line of the tree.
pub struct TreeLineView {
    pub text: Seq<char>,
    pub depth: nat,
}

/// The contents of lines of the tree.
pub open spec fn line_views(lines: Seq<TreeLine>) -> Seq<TreeLineView> {
    lines.map_values(|l: TreeLine| TreeLineView { text: l.text@, depth: l.depth as nat })
}

/// The text for a process in the tree.
pub open spec fn node_text(p: ProcessInfo) -> Seq<char> {
    (if p.is_supervisor {
        "\u{25BC}"@
    } else {
        "\u{25CF}"@
    }) + " "@ + (match p.name {
        Some(n) => n@,
        None => "process"@,
    }) + " "@ + short_pid(p.pid) + " ["@ + uptime_text(p.uptime_ms as nat) + "]"@
}

fn node_string(p: &ProcessInfo) -> (r: String)
    ensures
        r@ == node_text(*p),
{
    let mut out = String::new();
    if p.is_supervisor {
        out.append("\u{25BC}");
    } else {
        out.append("\u{25CF}");
    }
    out.append(" ");
    match &p.name {
        Some(n) => {
            out.append(n.as_str());
        },
        None => {
            out.append("process");
        },
    }
    out.append(" ");
    push_short_pid(&mut out, &p.pid);
    out.append(" [");
    out.append(format_uptime(p.uptime_ms).as_str());
    out.append("]");
    assert(out@ =~= node_text(*p));
    out
}

/// Whether a process has another as its parent, by node and number.
pub open spec fn is_child(child: ProcessInfo, of: ProcessInfo) -> bool {
    child.parent matches Some(pp) && pp.node() == of.pid.node() && pp.local() == of.pid.local()
}

fn is_child_of(child: &ProcessInfo, of: &ProcessInfo) -> (r: bool)
    ensures
        r == is_child(*child, *of),
{
    match &child.parent {
        Some(pp) => pp.node_id() == of.pid.node_id() && pp.local_id() == of.pid.local_id(),
        None => false,
    }
}

/// The lines for a process and all below it, at a depth, in the order of the list; none if it
/// goes down further than `fuel`.
pub open spec fn subtree(p: Seq<ProcessInfo>, idx: int, depth: nat, fuel: nat) -> Option<
    Seq<TreeLineView>,
>
    decreases fuel, 0int,
{
    if fuel == 0 {
        None
    } else {
        match children_from(p, idx, depth + 1, 0, (fuel - 1) as nat) {
            None => None,
            Some(below) => Some(
                seq![TreeLineView { text: node_text(p[idx]), depth }] + below,
            ),
        }
    }
}

/// The lines for the children of a process from a place in the list on, and all below them.
pub open spec fn children_from(
    p: Seq<ProcessInfo>,
    idx: int,
    depth: nat,
    from: int,
    fuel: nat,
) -> Option<Seq<TreeLineView>>
    decreases fuel, 1 + p.len() - from,
{
    if from < 0 || from >= p.len() {
        Some(Seq::empty())
    } else if !is_child(p[from], p[idx]) {
        children_from(p, idx, depth, from + 1, fuel)
    } else {
        match (subtree(p, from, depth, fuel), children_from(p, idx, depth, from + 1, fuel)) {
            (Some(a), Some(b)) => Some(a + b),
            _ => None,
        }
    }
}

/// Whether a process stands at the top: it has no parent, or all have one.
pub open spec fn is_root(p: Seq<ProcessInfo>, i: int) -> bool {
    p[i].parent is None || forall|j: int| 0 <= j < p.len() ==> (#[trigger] p[j]).parent is Some
}

/// The lines for the processes at the top from a place in the list on, and all below them.
pub open spec fn roots_from(p: Seq<ProcessInfo>, from: int, fuel: nat) -> Option<
    Seq<TreeLineView>,
>
    decreases p.len() - from,
{
    if from < 0 || from >= p.len() {
        Some(Seq::empty())
    } else if !is_root(p, from) {
        roots_from(p, from + 1, fuel)
    } else {
        match (subtree(p, from, 0, fuel), roots_from(p, from + 1, fuel)) {
            (Some(a), Some(b)) => Some(a + b),
            _ => None,
        }
    }
}

/// Appends the lines for a process and all below it. Says whether it ended in the depth given.
fn build_tree_items(
    processes: &Vec<ProcessInfo>,
    idx: usize,
    depth: usize,
    fuel: usize,
    items: &mut Vec<TreeLine>,
) -> (r: bool)
    requires
        idx < processes@.len(),
        depth + fuel <= usize::MAX,
    ensures
        r == (subtree(processes@, idx as int, depth as nat, fuel as nat) is Some),
        r ==> line_views(final(items)@) == line_views(old(items)@) + subtree(
            processes@,
            idx as int,
            depth as nat,
            fuel as nat,
        )->0,
    decreases fuel,
{
    if fuel == 0 {
        return false;
    }
    let text = node_string(&processes[idx]);
    let line = TreeLine { text, depth };
    items.push(line);
    let ghost head = TreeLineView { text: node_text(processes@[idx as int]), depth: depth as nat };
    let ghost first = items@;
    assert(line_views(first) =~= line_views(old(items)@) + seq![head]);
    let mut j: usize = 0;
    let ghost total = children_from(
        processes@,
        idx as int,
        (depth + 1) as nat,
        0,
        (fuel - 1) as nat,
    );
    let ghost mut done: Seq<TreeLineView> = Seq::empty();
    while j < processes.len()
        invariant
            fuel > 0,
            idx < processes@.len(),
            depth + fuel <= usize::MAX,
            j <= processes@.len(),
            line_views(items@) =~= line_views(first) + done,
            subtree(processes@, idx as int, depth as nat, fuel as nat) == (match total {
                None => None,
                Some(below) => Some(seq![head] + below),
            }),
            total == (match children_from(
                processes@,
                idx as int,
                (depth + 1) as nat,
                j as int,
                (fuel - 1) as nat,
            ) {
                None => None,
                Some(rest) => Some(done + rest),
            }),
        decreases processes@.len() - j,
    {
        if is_child_of(&processes[j], &processes[idx]) {
            let ended = build_tree_items(processes, j, depth + 1, fuel - 1, items);
            if !ended {
                return false;
            }
            proof {
                let part = subtree(
                    processes@,
                    j as int,
                    (depth + 1) as nat,
                    (fuel - 1) as nat,
                )->0;
                let rest = children_from(
                    processes@,
                    idx as int,
                    (depth + 1) as nat,
                    j + 1,
                    (fuel - 1) as nat,
                );
                if rest is Some {
                    assert(done + (part + rest->0) =~= (done + part) + rest->0);
                }
                done = done + part;
            }
        }
        j = j + 1;
    }
    proof {
        assert(done + Seq::<TreeLineView>::empty() =~= done);
        assert(line_views(items@) =~= line_views(old(items)@) + (seq![head] + done));
    }
    true
}

/// Whether all processes have a parent.
fn all_have_parents(processes: &Vec<ProcessInfo>) -> (r: bool)
    ensures
        r == (forall|j: int| 0 <= j < processes@.len() ==> (#[trigger] processes@[j]).parent
            is Some),
{
    let mut i: usize = 0;
    while i < processes.len()
        invariant
            i <= processes@.len(),
            forall|j: int| 0 <= j < i ==> (#[trigger] processes@[j]).parent is Some,
        decreases processes@.len() - i,
    {
        if processes[i].parent.is_none() {
            return false;
        }
        i = i + 1;
    }
    true
}

/// The lines of the tree: the processes at the top, each with those below it. None where a
/// process is below itself, so that the tree would have no end.
pub fn tree_lines(processes: &Vec<ProcessInfo>) -> (r: Option<Vec<TreeLine>>)
    ensures
        match r {
            Some(lines) => roots_from(processes@, 0, processes@.len()) == Some(line_views(lines@)),
            None => roots_from(processes@, 0, processes@.len()) is None,
        },
{
    let all = all_have_parents(processes);
    let n: usize = processes.len();
    let mut items: Vec<TreeLine> = Vec::new();
    let mut i: usize = 0;
    let ghost total = roots_from(processes@, 0, n as nat);
    let ghost mut done: Seq<TreeLineView> = Seq::empty();
    proof {
        if total is Some {
            assert(done + total->0 =~= total->0);
        }
    }
    assert(line_views(items@) =~= done);
    while i < n
        invariant
            n == processes@.len(),
            all == (forall|j: int| 0 <= j < processes@.len() ==> (#[trigger] processes@[j]).parent
                is Some),
            i <= n,
            line_views(items@) =~= done,
            total == roots_from(processes@, 0, n as nat),
            total == (match roots_from(processes@, i as int, n as nat) {
                None => None,
                Some(rest) => Some(done + rest),
            }),
        decreases n - i,
    {
        if all || processes[i].parent.is_none() {
            assert(is_root(processes@, i as int));
            let ended = build_tree_items(processes, i, 0, n, &mut items);
            if !ended {
                return None;
            }
            proof {
                let part = subtree(processes@, i as int, 0, n as nat)->0;
                let rest = roots_from(processes@, i + 1, n as nat);
                if rest is Some {
                    assert(done + (part + rest->0) =~= (done + part) + rest->0);
                }
                done = done + part;
            }
        } else {
            assert(!is_root(processes@, i as int));
        }
        i = i + 1;
    }
    assert(done + Seq::<TreeLineView>::empty() =~= done);
    Some(items)
}

/// Two spaces for each level of depth.
pub open spec fn indent(depth: nat) -> Seq<char> {
    Seq::new(2 * depth, |i: int| ' ')
}

/// A line of the tree as it is shown: its text behind its indent.
pub open spec fn indented(line: TreeLineView) -> Seq<char> {
    indent(line.depth) + line.text
}

/// A line of the tree as it is shown.
fn indented_text(line: &TreeLine) -> (r: String)
    ensures
        r@ == indented(TreeLineView { text: line.text@, depth: line.depth as nat }),
{
    let mut out = String::new();
    let mut i: usize = 0;
    proof {
        reveal_strlit("  ");
        assert(out@ =~= indent(0));
    }
    while i < line.depth
        invariant
            i <= line.depth,
            out@ == indent(i as nat),
            "  "@ =~= seq![' ', ' '],
        decreases line.depth - i,
    {
        out.append("  ");
        assert(out@ =~= indent((i + 1) as nat));
        i = i + 1;
    }
    out.append(line.text.as_str());
    out
}

/// The lines of the tree as they are shown, from where it is scrolled to. None where a process is
/// below itself, so that the tree would have no end.
pub fn tree_rows(app: &App) -> (r: Option<Vec<String>>)
    ensures
        match roots_from(app.processes@, 0, app.processes@.len()) {
            Some(lines) => r matches Some(rows) && rows@.len() == left_from(
                lines.len(),
                app.scroll_offset,
            ) && forall|i: int|
                0 <= i < rows@.len() ==> (#[trigger] rows@[i])@ == indented(
                    lines[app.scroll_offset + i],
                ),
            None => r is None,
        },
{
    let lines = match tree_lines(&app.processes) {
        Some(lines) => lines,
        None => {
            return None;
        },
    };
    let ghost views = line_views(lines@);
    let mut out: Vec<String> = Vec::new();
    let n: usize = lines.len();
    let mut i: usize = app.scroll_offset;
    while i < n
        invariant
            n == lines@.len(),
            views == line_views(lines@),
            app.scroll_offset <= i,
            i <= n || i == app.scroll_offset,
            out@.len() == i - app.scroll_offset,
            forall|j: int|
                0 <= j < out@.len() ==> (#[trigger] out@[j])@ == indented(
                    views[app.scroll_offset + j],
                ),
        decreases n - i,
    {
        out.push(indented_text(&lines[i]));
        i = i + 1;
    }
    Some(out)
}

/// Whether `height` says how many are below each process at most: less than its parent has.
pub open spec fn is_forest(p: Seq<ProcessInfo>, height: Seq<nat>) -> bool {
    &&& height.len() == p.len()
    &&& forall|i: int| 0 <= i < p.len() ==> #[trigger] height[i] < p.len()
    &&& forall|i: int, j: int|
        0 <= i < p.len() && 0 <= j < p.len() && is_child(p[i], p[j]) ==> (#[trigger] height[i]) < (
        #[trigger] height[j])
}

proof fn subtree_ends(p: Seq<ProcessInfo>, height: Seq<nat>, idx: int, depth: nat, fuel: nat)
    requires
        is_forest(p, height),
        0 <= idx < p.len(),
        height[idx] < fuel,
    ensures
        subtree(p, idx, depth, fuel) is Some,
    decreases fuel, 0int,
{
    children_end(p, height, idx, depth + 1, 0, (fuel - 1) as nat);
}

proof fn children_end(
    p: Seq<ProcessInfo>,
    height: Seq<nat>,
    idx: int,
    depth: nat,
    from: int,
    fuel: nat,
)
    requires
        is_forest(p, height),
        0 <= idx < p.len(),
        0 <= from <= p.len(),
        height[idx] <= fuel,
    ensures
        children_from(p, idx, depth, from, fuel) is Some,
    decreases fuel, 1 + p.len() - from,
{
    if from < p.len() {
        children_end(p, height, idx, depth, from + 1, fuel);
        if is_child(p[from], p[idx]) {
            assert(height[from] < height[idx]);
            subtree_ends(p, height, from, depth, fuel);
        }
    }
}

/// Where no process is below itself, the tree has lines.
pub proof fn forests_have_lines(p: Seq<ProcessInfo>, height: Seq<nat>)
    requires
        is_forest(p, height),
    ensures
        roots_from(p, 0, p.len()) is Some,
{
    roots_end(p, height, 0);
}

proof fn roots_end(p: Seq<ProcessInfo>, height: Seq<nat>, from: int)
    requires
        is_forest(p, height),
        0 <= from <= p.len(),
    ensures
        roots_from(p, from, p.len()) is Some,
    decreases p.len() - from,
{
    if from < p.len() {
        roots_end(p, height, from + 1);
        if is_root(p, from) {
            subtree_ends(p, height, from, 0, p.len());
        }
    }
}

/// A span is shown by what it is made of: below a second in milliseconds, below a minute in
/// seconds, below an hour in minutes and seconds, and else in hours and minutes; what is smaller
/// is left out.
pub proof fn uptime_shows_its_parts(h: nat, m: nat, s: nat, ms: nat)
    requires
        m < 60,
        s < 60,
        ms < 1000,
    ensures
        uptime_text(ms) == decimal(ms) + "ms"@,
        s > 0 ==> uptime_text(1000 * s + ms) == decimal(s) + "s"@,
        m > 0 ==> uptime_text(1000 * (60 * m + s) + ms) == decimal(m) + "m "@ + decimal(s) + "s"@,
        h > 0 ==> uptime_text(1000 * (60 * (60 * h + m) + s) + ms) == decimal(h) + "h "@ + decimal(
            m,
        ) + "m"@,
{
    let a = 60 * m + s;
    let b = 60 * (60 * h + m) + s;
    assert((1000 * s + ms) / 1000 == s);
    assert((1000 * a + ms) / 1000 == a);
    assert((1000 * b + ms) / 1000 == b);
    assert(a / 60 == m && a % 60 == s);
    assert(b / 60 == 60 * h + m);
    assert((60 * h + m) / 60 == h && (60 * h + m) % 60 == m);
}

/// The lines below a process show its children: each process that names it as its parent, by node
/// and number, has a line one deeper, and the process itself comes first.
pub proof fn children_are_shown_below_their_parent(
    p: Seq<ProcessInfo>,
    idx: int,
    depth: nat,
    fuel: nat,
    c: int,
    of: ProcessId,
)
    requires
        subtree(p, idx, depth, fuel) is Some,
        0 <= c < p.len(),
        p[c].parent == Some(of),
        of.node() == p[idx].pid.node(),
        of.local() == p[idx].pid.local(),
    ensures
        subtree(p, idx, depth, fuel)->0[0] == (TreeLineView { text: node_text(p[idx]), depth }),
        subtree(p, idx, depth, fuel)->0.contains(
            TreeLineView { text: node_text(p[c]), depth: depth + 1 },
        ),
{
    let below = children_from(p, idx, depth + 1, 0, (fuel - 1) as nat)->0;
    child_is_shown_from(p, idx, depth + 1, 0, (fuel - 1) as nat, c);
    let line = TreeLineView { text: node_text(p[c]), depth: depth + 1 };
    let k = choose|k: int| 0 <= k < below.len() && below[k] == line;
    assert(subtree(p, idx, depth, fuel)->0[k + 1] == line);
}

proof fn child_is_shown_from(
    p: Seq<ProcessInfo>,
    idx: int,
    depth: nat,
    from: int,
    fuel: nat,
    c: int,
)
    requires
        children_from(p, idx, depth, from, fuel) is Some,
        0 <= from <= c < p.len(),
        is_child(p[c], p[idx]),
    ensures
        children_from(p, idx, depth, from, fuel)->0.contains(
            TreeLineView { text: node_text(p[c]), depth },
        ),
    decreases c - from,
{
    let line = TreeLineView { text: node_text(p[c]), depth };
    let all = children_from(p, idx, depth, from, fuel)->0;
    if from == c {
        let a = subtree(p, c, depth, fuel)->0;
        assert(a[0] == line);
        assert(all[0] == line);
    } else {
        child_is_shown_from(p, idx, depth, from + 1, fuel, c);
        let rest = children_from(p, idx, depth, from + 1, fuel)->0;
        let k = choose|k: int| 0 <= k < rest.len() && rest[k] == line;
        if is_child(p[from], p[idx]) {
            let a = subtree(p, from, depth, fuel)->0;
            assert(all[a.len() + k] == line);
        } else {
            assert(all[k] == line);
        }
    }
}

/// Every process without a parent has a line of its own at the left; and where all have parents,
/// every process has one.
pub proof fn top_processes_are_shown_at_the_left(p: Seq<ProcessInfo>, fuel: nat, i: int)
    requires
        roots_from(p, 0, fuel) is Some,
        0 <= i < p.len(),
        p[i].parent is None || forall|j: int| 0 <= j < p.len() ==> (#[trigger] p[j]).parent is Some,
    ensures
        roots_from(p, 0, fuel)->0.contains(TreeLineView { text: node_text(p[i]), depth: 0 }),
{
    root_is_shown_from(p, 0, fuel, i);
}

proof fn root_is_shown_from(p: Seq<ProcessInfo>, from: int, fuel: nat, i: int)
    requires
        roots_from(p, from, fuel) is Some,
        0 <= from <= i < p.len(),
        is_root(p, i),
    ensures
        roots_from(p, from, fuel)->0.contains(TreeLineView { text: node_text(p[i]), depth: 0 }),
    decreases i - from,
{
    let line = TreeLineView { text: node_text(p[i]), depth: 0 };
    let all = roots_from(p, from, fuel)->0;
    if from == i {
        let a = subtree(p, i, 0, fuel)->0;
        assert(a[0] == line);
        assert(all[0] == line);
    } else {
        root_is_shown_from(p, from + 1, fuel, i);
        let rest = roots_from(p, from + 1, fuel)->0;
        let k = choose|k: int| 0 <= k < rest.len() && rest[k] == line;
        if is_root(p, from) {
            let a = subtree(p, from, 0, fuel)->0;
            assert(all[a.len() + k] == line);
        } else {
            assert(all[k] == line);
        }
    }
}

/// The label and the colour of an event tell what it is: what starts, what ends, what is
/// restarted, and a supervisor that starts.
pub proof fn events_are_coloured_by_what_they_are(
    event: LifecycleEvent,
    r: (&'static str, EventColor),
)
    requires
        call_ensures(event_style, (&event,), r),
    ensures
        event is ProcessSpawned || event is ChildStarted <==> r.1 == EventColor::Green,
        event is ProcessExited || event is ChildExited || event is SupervisorMaxRestartsExceeded <==> r.1
            == EventColor::Red,
        event is ChildRestarted <==> r.1 == EventColor::Yellow,
        event is SupervisorStarted <==> r.1 == EventColor::Magenta,
        r.1 == EventColor::Green ==> r.0@ == "SPAWN"@,
        r.1 == EventColor::Red ==> r.0@ == "EXIT"@,
        r.1 == EventColor::Yellow ==> r.0@ == "RESTART"@,
        r.1 == EventColor::Magenta ==> r.0@ == "SUPER"@,
{
}

/// A line of the list shows its process by its own node and number, its name, its parent, how long
/// it has been up and what it is.
pub proof fn rows_show_their_process(
    p: ProcessInfo,
    r: ListRow,
)
    requires
        call_ensures(list_row, (&p,), r),
    ensures
        r.pid@ == "<"@ + (decimal(p.pid.node() as nat) + "."@ + decimal(p.pid.local() as nat)) + ">"@,
        p.name matches Some(n) ==> r.name@ == n@,
        p.name is None ==> r.name@ == "-"@,
        p.parent matches Some(pp) ==> r.parent@ == "<"@ + (decimal(pp.node() as nat) + "."@ + decimal(
            pp.local() as nat,
        )) + ">"@,
        p.parent is None ==> r.parent@ == "-"@,
        p.is_supervisor <==> r.kind@ == "supervisor"@,
        r.uptime@ == uptime_text(p.uptime_ms as nat),
{
    reveal_strlit("supervisor");
    reveal_strlit("process");
    assert("supervisor"@.len() == 10);
    assert("process"@.len() == 7);
}

/// The list shows the processes from where it is scrolled to, in their order, and the log the
/// events from there back to the oldest, the newest first.
pub proof fn lists_show_what_is_left(
    app: App,
    rows: Vec<ListRow>,
    lines: Vec<EventLine>,
    i: int,
)
    requires
        call_ensures(list_rows, (&app,), rows),
        call_ensures(event_lines, (&app,), lines),
    ensures
        app.scroll_offset <= app.processes@.len() ==> rows@.len() + app.scroll_offset
            == app.processes@.len(),
        app.scroll_offset <= app.events@.len() ==> lines@.len() + app.scroll_offset
            == app.events@.len(),
        0 <= i < rows@.len() ==> rows@[i].pid@ == short_pid(app.processes@[app.scroll_offset + i].pid),
        0 <= i < lines@.len() ==> lines@[i].detail@ == detail_text(
            app.events@[app.events@.len() - 1 - app.scroll_offset - i],
        ),
{
    if 0 <= i < rows@.len() {
        let row = rows@[i];
    }
    if 0 <= i < lines@.len() {
        let line = lines@[i];
    }
}

/// A line of the tree is shown two spaces further in for each level of its depth, and is else as
/// it is.
pub proof fn lines_are_indented_by_depth(
    line: TreeLineView,
    i: int,
)
    requires
        0 <= i < 2 * line.depth,
    ensures
        indented(line).len() == 2 * line.depth + line.text.len(),
        indented(line)[i] == ' ',
        indented(line).skip(2 * line.depth as int) == line.text,
{
    assert(indented(line).skip(2 * line.depth as int) =~= line.text);
}

/// Texts that are listed come one behind another, with a comma and a space between them.
pub proof fn listed_texts_follow_each_other(
    texts: Seq<String>,
    t: String,
)
    ensures
        joined(Seq::<String>::empty()) == Seq::<char>::empty(),
        texts.len() == 0 ==> joined(texts.push(t)) == t@,
        texts.len() > 0 ==> joined(texts.push(t)) == joined(texts) + ", "@ + t@,
{
    assert(texts.push(t).drop_last() =~= texts);
}

/// What is told of an event names the processes and the child that it is about, and the reason for
/// an end.
pub proof fn details_name_what_they_are_about(
    event: LifecycleEvent,
    r: String,
)
    requires
        call_ensures(event_detail, (&event,), r),
    ensures
        event matches LifecycleEvent::ProcessSpawned { pid, name: None, .. } ==> r@ == "Process "@
            + pid_text(pid) + " spawned"@,
        event matches LifecycleEvent::ProcessSpawned { pid, name: Some(n), .. } ==> r@ == "Process "@
            + pid_text(pid) + " spawned"@ + (" ("@ + n@ + ")"@),
        event matches LifecycleEvent::ProcessExited { pid, reason, .. } ==> r@ == "Process "@ + pid_text(
            pid,
        ) + " exited: "@ + reason_text(reason),
        event matches LifecycleEvent::ChildStarted { supervisor_pid, child_pid, child_id, .. } ==> r@
            == "Child "@ + child_id@ + " ("@ + pid_text(child_pid) + ") started under "@ + pid_text(
            supervisor_pid,
        ),
        event matches LifecycleEvent::ChildExited { child_pid, child_id, reason, .. } ==> r@ == "Child "@
            + child_id@ + " ("@ + pid_text(child_pid) + ") exited: "@ + reason_text(reason),
        event matches LifecycleEvent::ChildRestarted { old_pid, new_pid, child_id, restart_count, .. }
            ==> r@ == "Child "@ + child_id@ + " restarted "@ + pid_text(old_pid) + " -> "@ + pid_text(
            new_pid,
        ) + " (#"@ + decimal(restart_count as nat) + ")"@,
        event matches LifecycleEvent::SupervisorMaxRestartsExceeded { pid, .. } ==> r@ == "Supervisor "@
            + pid_text(pid) + " max restarts exceeded"@,
{
}

/// Children are shown in the order of the list: of two children of a process, the one that comes
/// first in the list has its line first.
pub proof fn children_are_shown_in_order(
    p: Seq<ProcessInfo>,
    idx: int,
    depth: nat,
    fuel: nat,
    c: int,
    d: int,
)
    requires
        subtree(p, idx, depth, fuel) is Some,
        0 <= c < d < p.len(),
        is_child(p[c], p[idx]),
        is_child(p[d], p[idx]),
    ensures
        exists|i: int, j: int|
            0 < i < j < subtree(p, idx, depth, fuel)->0.len() && #[trigger] subtree(
                p,
                idx,
                depth,
                fuel,
            )->0[i] == (TreeLineView { text: node_text(p[c]), depth: depth + 1 })
                && #[trigger] subtree(p, idx, depth, fuel)->0[j] == (TreeLineView {
                text: node_text(p[d]),
                depth: depth + 1,
            }),
{
    let lines = subtree(p, idx, depth, fuel)->0;
    let below = children_from(p, idx, depth + 1, 0, (fuel - 1) as nat)->0;
    let first = TreeLineView { text: node_text(p[c]), depth: depth + 1 };
    let second = TreeLineView { text: node_text(p[d]), depth: depth + 1 };
    let (i, j) = children_in_order_from(p, idx, depth + 1, 0, (fuel - 1) as nat, c, d);
    assert(lines[i + 1] == first);
    assert(lines[j + 1] == second);
}

proof fn children_in_order_from(
    p: Seq<ProcessInfo>,
    idx: int,
    depth: nat,
    from: int,
    fuel: nat,
    c: int,
    d: int,
) -> (r: (int, int))
    requires
        children_from(p, idx, depth, from, fuel) is Some,
        0 <= from <= c < d < p.len(),
        is_child(p[c], p[idx]),
        is_child(p[d], p[idx]),
    ensures
        0 <= r.0 < r.1 < children_from(p, idx, depth, from, fuel)->0.len(),
        children_from(p, idx, depth, from, fuel)->0[r.0] == (TreeLineView {
            text: node_text(p[c]),
            depth,
        }),
        children_from(p, idx, depth, from, fuel)->0[r.1] == (TreeLineView {
            text: node_text(p[d]),
            depth,
        }),
    decreases c - from,
{
    let all = children_from(p, idx, depth, from, fuel)->0;
    let rest = children_from(p, idx, depth, from + 1, fuel)->0;
    if from == c {
        let a = subtree(p, c, depth, fuel)->0;
        child_is_shown_from(p, idx, depth, from + 1, fuel, d);
        let line = TreeLineView { text: node_text(p[d]), depth };
        let k = choose|k: int| 0 <= k < rest.len() && rest[k] == line;
        assert(all == a + rest);
        assert(all[0] == a[0]);
        assert(all[a.len() + k] == rest[k]);
        (0, a.len() + k)
    } else {
        let (i, j) = children_in_order_from(p, idx, depth, from + 1, fuel, c, d);
        if is_child(p[from], p[idx]) {
            let a = subtree(p, from, depth, fuel)->0;
            assert(all == a + rest);
            assert(all[a.len() + i] == rest[i]);
            assert(all[a.len() + j] == rest[j]);
            (a.len() + i, a.len() + j)
        } else {
            (i, j)
        }
    }
}

/// A reason is written as its kind, with what goes with it, and a strategy as its name.
pub proof fn reasons_and_strategies_are_written_by_name(
    why: String,
    pid: ProcessId,
    inner: ExitReason,
)
    ensures
        reason_text(ExitReason::Normal) == "Normal"@,
        reason_text(ExitReason::Kill) == "Kill"@,
        reason_text(ExitReason::Abnormal(why)) == "Abnormal("@ + quoted_text(why@) + ")"@,
        reason_text(ExitReason::LinkedExit(pid, Box::new(inner))) == "LinkedExit("@ + pid_fields(pid)
            + ", "@ + reason_text(inner) + ")"@,
        strategy_text(RestartStrategy::OneForOne) == "OneForOne"@,
        strategy_text(RestartStrategy::OneForAll) == "OneForAll"@,
        strategy_text(RestartStrategy::RestForOne) == "RestForOne"@,
{
}

/// A process in the tree is shown by a mark for what it is, its name or that it is a process, its
/// node and number, and how long it has been up.
pub proof fn nodes_are_shown_by_their_parts(
    p: ProcessInfo,
    mark: Seq<char>,
    name: Seq<char>,
)
    requires
        p.is_supervisor ==> mark == "\u{25BC}"@,
        !p.is_supervisor ==> mark == "\u{25CF}"@,
        p.name matches Some(n) ==> name == n@,
        p.name is None ==> name == "process"@,
    ensures
        node_text(p) == mark + " "@ + name + " "@ + ("<"@ + (decimal(p.pid.node() as nat) + "."@ + decimal(
            p.pid.local() as nat,
        )) + ">"@) + " ["@ + uptime_text(p.uptime_ms as nat) + "]"@,
{
}

/// The titles say what is shown: the column that the list is sorted by, and how many processes and
/// events there are.
pub proof fn titles_say_what_is_shown(
    app: App,
    list: String,
    all: String,
    log: String,
)
    requires
        call_ensures(list_title, (&app,), list),
        call_ensures(watcher_title, (&app,), all),
        call_ensures(event_log_title, (&app,), log),
    ensures
        list@ == " Process List (sort: "@ + app.sort_column.heading() + ", press 's' to cycle) "@,
        all@ == " Rebar Watcher | "@ + decimal(app.processes@.len()) + " processes "@,
        log@ == " Event Log ("@ + decimal(app.events@.len()) + " events) "@,
{
}

/// The tree as it is shown has the lines that are left from where it is scrolled to, and there is
/// none where a process is below itself.
pub proof fn tree_rows_are_what_is_left(
    app: App,
    rows: Option<Vec<String>>,
    lines: Option<Vec<TreeLine>>,
    i: int,
)
    requires
        call_ensures(tree_rows, (&app,), rows),
        call_ensures(tree_lines, (&app.processes,), lines),
    ensures
        rows is Some <==> lines is Some,
        rows is Some && app.scroll_offset <= lines->0@.len() ==> rows->0@.len() + app.scroll_offset
            == lines->0@.len(),
        rows is Some && 0 <= i < rows->0@.len() ==> rows->0@[i]@ == indented(
            TreeLineView {
                text: lines->0@[app.scroll_offset + i].text@,
                depth: lines->0@[app.scroll_offset + i].depth as nat,
            },
        ),
{
    if rows is Some && 0 <= i < rows->0@.len() {
        let row = rows->0@[i];
    }
}

} // verus!
