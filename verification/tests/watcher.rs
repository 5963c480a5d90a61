//! What the watcher shows, and how it follows keys.
use rebar::events::LifecycleEvent;
use rebar::process::{ExitReason, ProcessId};
use rebar::supervisor::RestartStrategy;
use rebar::watcher::app::{App, ProcessInfo, SortColumn, View, WatcherTuiConfig, MAX_EVENTS};
use rebar::watcher::input::{handle_key, KeyCode, KeyEvent};
use rebar::watcher::views::{
    event_detail, event_lines, event_log_title, event_style, format_uptime, list_rows, list_title,
    tree_lines, tree_rows, watcher_title, EventColor,
};

fn key(code: KeyCode) -> KeyEvent {
    KeyEvent { code, control: false }
}

fn process(local: u64, name: Option<&str>, parent: Option<u64>, uptime_ms: u64) -> ProcessInfo {
    ProcessInfo {
        pid: ProcessId::new(1, 0, local),
        name: name.map(|n| n.to_string()),
        parent: parent.map(|p| ProcessId::new(1, 0, p)),
        uptime_ms,
        is_supervisor: false,
    }
}

fn spawned(local: u64) -> LifecycleEvent {
    LifecycleEvent::ProcessSpawned {
        pid: ProcessId::new(1, 0, local),
        parent: None,
        name: None,
        timestamp: 0,
    }
}

#[test]
fn quit_on_q() {
    let mut app = App::new();
    handle_key(&mut app, key(KeyCode::Char('q')), 10);
    assert!(app.should_quit);
}

#[test]
fn quit_on_esc() {
    let mut app = App::new();
    handle_key(&mut app, key(KeyCode::Esc), 10);
    assert!(app.should_quit);
}

#[test]
fn quit_on_ctrl_c() {
    let mut app = App::new();
    handle_key(&mut app, key(KeyCode::Char('c')), 10);
    assert!(!app.should_quit);
    handle_key(&mut app, KeyEvent { code: KeyCode::Char('c'), control: true }, 10);
    assert!(app.should_quit);
}

#[test]
fn switch_to_tree_view() {
    let mut app = App::new();
    app.view = View::List;
    app.scroll_offset = 4;
    handle_key(&mut app, key(KeyCode::Char('1')), 10);
    assert!(matches!(app.view, View::Tree));
    assert_eq!(app.scroll_offset, 0);
}

#[test]
fn switch_to_list_view() {
    let mut app = App::new();
    handle_key(&mut app, key(KeyCode::Char('2')), 10);
    assert!(matches!(app.view, View::List));
    assert_eq!(app.view.tab_index(), 1);
}

#[test]
fn switch_to_events_view() {
    let mut app = App::new();
    handle_key(&mut app, key(KeyCode::Char('3')), 10);
    assert!(matches!(app.view, View::Events));
}

#[test]
fn scroll_up_with_k() {
    let mut app = App::new();
    app.scroll_offset = 5;
    handle_key(&mut app, key(KeyCode::Char('k')), 10);
    assert_eq!(app.scroll_offset, 4);
}

#[test]
fn scroll_down_with_j() {
    let mut app = App::new();
    handle_key(&mut app, key(KeyCode::Char('j')), 10);
    assert_eq!(app.scroll_offset, 1);
}

#[test]
fn cycle_sort_column() {
    let mut app = App::new();
    assert_eq!(app.sort_column.label(), "PID");
    handle_key(&mut app, key(KeyCode::Char('s')), 10);
    assert_eq!(app.sort_column.label(), "Name");
}

#[test]
fn scrolling_stays_within_the_lines() {
    let mut app = App::new();
    handle_key(&mut app, key(KeyCode::Up), 3);
    assert_eq!(app.scroll_offset, 0);
    for _ in 0..9 {
        handle_key(&mut app, key(KeyCode::Down), 3);
    }
    assert_eq!(app.scroll_offset, 2);
    handle_key(&mut app, key(KeyCode::Other), 3);
    handle_key(&mut app, key(KeyCode::Char('x')), 3);
    assert_eq!(app.scroll_offset, 2);
    let mut empty = App::new();
    handle_key(&mut empty, key(KeyCode::Down), 0);
    assert_eq!(empty.scroll_offset, 0);
}

#[test]
fn old_events_make_room() {
    let mut app = App::new();
    for i in 0..(MAX_EVENTS as u64 + 5) {
        app.push_event(spawned(i));
    }
    assert_eq!(app.events.len(), 1000);
    match &app.events[0] {
        LifecycleEvent::ProcessSpawned { pid, .. } => assert_eq!(pid.local_id(), 5),
        other => panic!("unexpected {:?}", other),
    }
}

#[test]
fn sorting_is_by_the_column_and_stable() {
    let mut app = App::new();
    app.processes = vec![
        process(3, Some("beta"), Some(9), 10),
        process(1, None, None, 30),
        process(2, Some("alpha"), Some(4), 10),
    ];
    app.processes[2].is_supervisor = true;
    let order = |app: &App| -> Vec<u64> { app.processes.iter().map(|p| p.pid.local_id()).collect() };
    app.sort_column = SortColumn::Uptime;
    app.sort_processes();
    assert_eq!(order(&app), vec![3, 2, 1]);
    app.sort_column = SortColumn::Type;
    app.sort_processes();
    assert_eq!(order(&app), vec![2, 3, 1]);
    app.sort_column = SortColumn::Name;
    app.sort_processes();
    assert_eq!(order(&app), vec![1, 2, 3]);
    app.sort_column = SortColumn::Parent;
    app.sort_processes();
    assert_eq!(order(&app), vec![1, 2, 3]);
    app.sort_column = SortColumn::Pid;
    app.sort_processes();
    assert_eq!(order(&app), vec![1, 2, 3]);
    assert_eq!(app.item_count(), 3);
}

#[test]
fn names_sort_as_texts_do() {
    let names = ["b", "", "ab", "a", "\u{25cf}", "z", "aa", "\u{10348}", "\u{fffd}"];
    let mut app = App::new();
    app.processes = names.iter().map(|n| process(1, Some(n), None, 0)).collect();
    app.sort_column = SortColumn::Name;
    app.sort_processes();
    let sorted: Vec<String> = app.processes.iter().map(|p| p.name.clone().unwrap()).collect();
    let mut expected: Vec<String> = names.iter().map(|n| n.to_string()).collect();
    expected.sort();
    assert_eq!(sorted, expected);
}

#[test]
fn uptime_is_told_in_its_largest_units() {
    assert_eq!(format_uptime(0), "0ms");
    assert_eq!(format_uptime(999), "999ms");
    assert_eq!(format_uptime(1000), "1s");
    assert_eq!(format_uptime(59_999), "59s");
    assert_eq!(format_uptime(61_000), "1m 1s");
    assert_eq!(format_uptime(3_599_999), "59m 59s");
    assert_eq!(format_uptime(3_600_000), "1h 0m");
    assert_eq!(format_uptime(90_061_000), "25h 1m");
}

#[test]
fn the_list_shows_a_line_for_each_process() {
    let mut app = App::new();
    app.processes = vec![process(1, None, None, 5), process(2, Some("svc"), Some(1), 2_000)];
    app.processes[0].is_supervisor = true;
    let rows = list_rows(&app);
    assert_eq!(rows.len(), 2);
    assert_eq!(
        (rows[0].pid.as_str(), rows[0].name.as_str(), rows[0].parent.as_str()),
        ("<1.1>", "-", "-")
    );
    assert_eq!(rows[0].kind, "supervisor");
    assert_eq!(
        (rows[1].pid.as_str(), rows[1].name.as_str(), rows[1].parent.as_str()),
        ("<1.2>", "svc", "<1.1>")
    );
    assert_eq!((rows[1].uptime.as_str(), rows[1].kind.as_str()), ("2s", "process"));
    app.scroll_offset = 1;
    assert_eq!(list_rows(&app).len(), 1);
    app.scroll_offset = 7;
    assert!(list_rows(&app).is_empty());
    assert_eq!(list_title(&app), " Process List (sort: PID, press 's' to cycle) ");
    assert_eq!(watcher_title(&app), " Rebar Watcher | 2 processes ");
}

#[test]
fn events_are_told_the_newest_first() {
    let mut app = App::new();
    app.push_event(spawned(1));
    app.push_event(spawned(2));
    app.push_event(spawned(3));
    app.scroll_offset = 1;
    let lines = event_lines(&app);
    let details: Vec<&str> = lines.iter().map(|l| l.detail.as_str()).collect();
    assert_eq!(details, vec!["Process <1.0.2> spawned", "Process <1.0.1> spawned"]);
    assert_eq!(lines[0].label, "SPAWN");
    assert_eq!(event_log_title(&app), " Event Log (3 events) ");
}

#[test]
fn every_event_has_its_text() {
    let pid = ProcessId::new(1, 0, 7);
    let old = ProcessId::new(1, 0, 8);
    let deep = ExitReason::LinkedExit(old, Box::new(ExitReason::Abnormal("it \"broke\"\n".into())));
    let debug = format!("{:?}", deep);
    let exited = LifecycleEvent::ProcessExited { pid, reason: deep, timestamp: 0 };
    assert_eq!(event_detail(&exited), format!("Process <1.0.7> exited: {}", debug));
    assert_eq!(event_style(&exited), ("EXIT", EventColor::Red));
    let started = LifecycleEvent::SupervisorStarted {
        pid,
        strategy: RestartStrategy::RestForOne,
        child_ids: vec!["a".into(), "b".into(), "c".into()],
        timestamp: 0,
    };
    assert_eq!(
        event_detail(&started),
        "Supervisor <1.0.7> started (RestForOne) children=[a, b, c]"
    );
    assert_eq!(event_style(&started), ("SUPER", EventColor::Magenta));
    let child = LifecycleEvent::ChildStarted {
        supervisor_pid: pid,
        child_pid: old,
        child_id: "w".into(),
        timestamp: 0,
    };
    assert_eq!(event_detail(&child), "Child w (<1.0.8>) started under <1.0.7>");
    let gone = LifecycleEvent::ChildExited {
        supervisor_pid: pid,
        child_pid: old,
        child_id: "w".into(),
        reason: ExitReason::Kill,
        timestamp: 0,
    };
    assert_eq!(event_detail(&gone), "Child w (<1.0.8>) exited: Kill");
    let again = LifecycleEvent::ChildRestarted {
        supervisor_pid: pid,
        old_pid: old,
        new_pid: pid,
        child_id: "w".into(),
        restart_count: 12,
        timestamp: 0,
    };
    assert_eq!(event_detail(&again), "Child w restarted <1.0.8> -> <1.0.7> (#12)");
    assert_eq!(event_style(&again), ("RESTART", EventColor::Yellow));
    let over = LifecycleEvent::SupervisorMaxRestartsExceeded { pid, timestamp: 0 };
    assert_eq!(event_detail(&over), "Supervisor <1.0.7> max restarts exceeded");
    let named = LifecycleEvent::ProcessSpawned {
        pid,
        parent: None,
        name: Some("n".into()),
        timestamp: 0,
    };
    assert_eq!(event_detail(&named), "Process <1.0.7> spawned (n)");
}

#[test]
fn the_tree_shows_children_below_their_parents() {
    let mut processes = vec![
        process(1, Some("root"), None, 1),
        process(3, None, Some(2), 3),
        process(2, Some("mid"), Some(1), 2),
        process(4, None, None, 4),
    ];
    processes[0].is_supervisor = true;
    let lines = tree_lines(&processes).unwrap();
    let shown: Vec<(usize, &str)> = lines.iter().map(|l| (l.depth, l.text.as_str())).collect();
    assert_eq!(
        shown,
        vec![
            (0, "\u{25BC} root <1.1> [1ms]"),
            (1, "\u{25CF} mid <1.2> [2ms]"),
            (2, "\u{25CF} process <1.3> [3ms]"),
            (0, "\u{25CF} process <1.4> [4ms]"),
        ]
    );
}

#[test]
fn the_tree_is_shown_indented_from_where_it_is_scrolled_to() {
    let mut app = App::new();
    app.processes = vec![process(1, Some("root"), None, 1), process(2, Some("mid"), Some(1), 2)];
    assert_eq!(
        tree_rows(&app).unwrap(),
        vec!["\u{25CF} root <1.1> [1ms]", "  \u{25CF} mid <1.2> [2ms]"]
    );
    app.scroll_offset = 1;
    assert_eq!(tree_rows(&app).unwrap(), vec!["  \u{25CF} mid <1.2> [2ms]"]);
    app.scroll_offset = 5;
    assert!(tree_rows(&app).unwrap().is_empty());
    app.processes = vec![process(1, None, Some(2), 0), process(2, None, Some(1), 0)];
    assert!(tree_rows(&app).is_none());
}

#[test]
fn without_roots_all_are_roots() {
    let orphans = vec![process(1, None, Some(8), 0), process(2, None, Some(9), 0)];
    assert_eq!(tree_lines(&orphans).unwrap().len(), 2);
    assert!(tree_lines(&Vec::new()).unwrap().is_empty());
    let circle = vec![process(1, None, Some(2), 0), process(2, None, Some(1), 0)];
    assert!(tree_lines(&circle).is_none());
}

#[test]
fn the_watcher_looks_four_times_a_second() {
    assert_eq!(WatcherTuiConfig::default().tick_rate_ms, 250);
}

#[test]
fn a_look_takes_in_events_and_processes() {
    let mut app = App::new();
    for i in 0..999 {
        app.push_event(spawned(i));
    }
    let lines = app.refresh(
        vec![spawned(999), spawned(1000), spawned(1001)],
        vec![process(2, None, None, 0), process(1, None, None, 0)],
    );
    assert_eq!(lines, 2);
    assert_eq!(app.events.len(), 1000);
    assert!(matches!(
        app.events[0],
        LifecycleEvent::ProcessSpawned { pid, .. } if pid.local_id() == 2
    ));
    assert_eq!(app.processes[0].pid.local_id(), 1);
    app.view = View::Events;
    assert_eq!(app.refresh(Vec::new(), Vec::new()), 1000);
}
