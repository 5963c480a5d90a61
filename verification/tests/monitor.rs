//! Monitors and links.
use rebar::counter::Counter;
use rebar::process::monitor::{LinkSet, MonitorRef, MonitorSet};
use rebar::process::ProcessId;

#[test]
fn monitor_ref_unique() {
    let mut refs = Counter::new(1);
    let r1 = MonitorRef::new(&mut refs);
    let r2 = MonitorRef::new(&mut refs);
    assert_ne!(r1, r2);
}

#[test]
fn monitor_ref_is_copy() {
    let mut refs = Counter::new(1);
    let r = MonitorRef::new(&mut refs);
    let r2 = r;
    assert_eq!(r, r2);
}

#[test]
fn monitor_set_add_and_query() {
    let mut refs = Counter::new(1);
    let mut set = MonitorSet::new();
    let pid = ProcessId::new(1, 0, 1);
    let mref = set.add_monitor(pid, &mut refs);
    let monitors = set.monitors_for(pid);
    assert_eq!(monitors.len(), 1);
    assert_eq!(monitors[0], mref);
}

#[test]
fn monitor_set_multiple_monitors_same_target() {
    let mut refs = Counter::new(1);
    let mut set = MonitorSet::new();
    let pid = ProcessId::new(1, 0, 1);
    let r1 = set.add_monitor(pid, &mut refs);
    let r2 = set.add_monitor(pid, &mut refs);
    assert_ne!(r1, r2);
    assert_eq!(set.monitors_for(pid).len(), 2);
}

#[test]
fn monitor_set_remove() {
    let mut refs = Counter::new(1);
    let mut set = MonitorSet::new();
    let pid = ProcessId::new(1, 0, 1);
    let mref = set.add_monitor(pid, &mut refs);
    set.remove_monitor(mref);
    assert_eq!(set.monitors_for(pid).len(), 0);
}

#[test]
fn monitor_set_remove_one_of_many() {
    let mut refs = Counter::new(1);
    let mut set = MonitorSet::new();
    let pid = ProcessId::new(1, 0, 1);
    let r1 = set.add_monitor(pid, &mut refs);
    let _r2 = set.add_monitor(pid, &mut refs);
    set.remove_monitor(r1);
    assert_eq!(set.monitors_for(pid).len(), 1);
}

#[test]
fn monitor_set_different_targets() {
    let mut refs = Counter::new(1);
    let mut set = MonitorSet::new();
    set.add_monitor(ProcessId::new(1, 0, 1), &mut refs);
    set.add_monitor(ProcessId::new(1, 0, 2), &mut refs);
    assert_eq!(set.monitors_for(ProcessId::new(1, 0, 1)).len(), 1);
    assert_eq!(set.monitors_for(ProcessId::new(1, 0, 2)).len(), 1);
}

#[test]
fn monitor_set_remove_nonexistent_is_noop() {
    let mut refs = Counter::new(1);
    let mut set = MonitorSet::new();
    set.remove_monitor(MonitorRef::new(&mut refs));
}

#[test]
fn link_set_add_and_contains() {
    let mut set = LinkSet::new();
    let pid = ProcessId::new(1, 0, 1);
    set.add_link(pid);
    assert!(set.is_linked(pid));
}

#[test]
fn link_set_remove() {
    let mut set = LinkSet::new();
    let pid = ProcessId::new(1, 0, 1);
    set.add_link(pid);
    set.remove_link(pid);
    assert!(!set.is_linked(pid));
}

#[test]
fn link_set_linked_pids_iter() {
    let mut set = LinkSet::new();
    set.add_link(ProcessId::new(1, 0, 1));
    set.add_link(ProcessId::new(1, 0, 2));
    let pids = set.linked_pids();
    assert_eq!(pids.len(), 2);
}

#[test]
fn link_set_duplicate_add_is_idempotent() {
    let mut set = LinkSet::new();
    let pid = ProcessId::new(1, 0, 1);
    set.add_link(pid);
    set.add_link(pid);
    assert_eq!(set.linked_pids().len(), 1);
}

#[test]
fn links_are_listed_once_each() {
    let mut set = LinkSet::new();
    for i in [3, 1, 3, 2, 1] {
        set.add_link(ProcessId::new(1, 0, i));
    }
    let mut locals: Vec<u64> = set.linked_pids().iter().map(|p| p.local_id()).collect();
    locals.sort();
    assert_eq!(locals, vec![1, 2, 3]);
}

#[test]
fn monitors_are_listed_in_the_order_of_adding_and_once() {
    let mut counter = Counter::new(1);
    let mut set = MonitorSet::new();
    let (p, q) = (ProcessId::new(1, 0, 1), ProcessId::new(1, 0, 2));
    let a = set.add_monitor(p, &mut counter);
    let b = set.add_monitor(q, &mut counter);
    let c = set.add_monitor(p, &mut counter);
    assert_eq!(set.monitors_for(p), vec![a, c]);
    assert_eq!(set.monitors_for(q), vec![b]);
    let d = set.add_monitor(q, &mut counter);
    set.remove_monitor(d);
    assert_eq!(set.monitors_for(p), vec![a, c]);
    assert_eq!(set.monitors_for(q), vec![b]);
    set.remove_monitor(a);
    set.remove_monitor(a);
    assert_eq!(set.monitors_for(p), vec![c]);
    assert_eq!(set.monitors_for(q), vec![b]);
}
