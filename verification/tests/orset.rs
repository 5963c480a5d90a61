//! The registry of names across nodes.
use rebar::cluster::registry::{Registry, RegistryDelta, RegistryEntry};
use rebar::process::ProcessId;

fn pid(node: u64, local: u64) -> ProcessId {
    ProcessId::new(node, 0, local)
}

#[test]
fn register_and_lookup() {
    let mut reg = Registry::new();
    let p = pid(1, 100);
    reg.register("my_server", p, 1, 1000);

    let entry = reg.lookup("my_server").expect("should find entry");
    assert_eq!(entry.name, "my_server");
    assert_eq!(entry.pid, p);
    assert_eq!(entry.timestamp, 1000);
    assert_eq!(entry.node_id, 1);
}

#[test]
fn unregister() {
    let mut reg = Registry::new();
    let p = pid(1, 100);
    reg.register("my_server", p, 1, 1000);

    let deltas = reg.unregister("my_server");
    assert!(deltas.is_some());
    assert!(reg.lookup("my_server").is_none());
}

#[test]
fn lookup_nonexistent_returns_none() {
    let reg = Registry::new();
    assert!(reg.lookup("ghost").is_none());
}

#[test]
fn registered_returns_all() {
    let mut reg = Registry::new();
    reg.register("alpha", pid(1, 1), 1, 100);
    reg.register("beta", pid(1, 2), 1, 200);
    reg.register("gamma", pid(2, 1), 2, 300);

    let all = reg.registered();
    assert_eq!(all.len(), 3);
    // sorted by name
    assert_eq!(all[0].0, "alpha");
    assert_eq!(all[1].0, "beta");
    assert_eq!(all[2].0, "gamma");
}

#[test]
fn last_writer_wins() {
    let mut reg = Registry::new();
    let p1 = pid(1, 1);
    let p2 = pid(2, 2);

    reg.register("name_server", p1, 1, 100);
    reg.register("name_server", p2, 2, 200);

    let winner = reg.lookup("name_server").unwrap();
    assert_eq!(winner.pid, p2, "later timestamp should win");
    assert_eq!(winner.timestamp, 200);
}

#[test]
fn conflict_with_same_timestamp_deterministic() {
    let mut reg = Registry::new();
    let p1 = pid(1, 1);
    let p2 = pid(2, 2);

    reg.register("leader", p1, 1, 500);
    reg.register("leader", p2, 2, 500);

    let winner = reg.lookup("leader").unwrap();
    // Higher node_id wins as tiebreaker
    assert_eq!(winner.node_id, 2, "higher node_id should win tiebreaker");
    assert_eq!(winner.pid, p2);
}

#[test]
fn remove_by_pid_cleans_all_names() {
    let mut reg = Registry::new();
    let p = pid(1, 42);

    reg.register("service_a", p, 1, 100);
    reg.register("service_b", p, 1, 200);

    reg.remove_by_pid(p);

    assert!(reg.lookup("service_a").is_none());
    assert!(reg.lookup("service_b").is_none());
}

#[test]
fn remove_by_pid_doesnt_affect_others() {
    let mut reg = Registry::new();
    let p1 = pid(1, 1);
    let p2 = pid(2, 2);

    reg.register("mine", p1, 1, 100);
    reg.register("yours", p2, 2, 200);

    reg.remove_by_pid(p1);

    assert!(reg.lookup("mine").is_none());
    assert!(reg.lookup("yours").is_some());
}

#[test]
fn remove_by_node_cleans_all_from_node() {
    let mut reg = Registry::new();
    reg.register("svc1", pid(1, 1), 1, 100);
    reg.register("svc2", pid(1, 2), 1, 200);
    reg.register("svc3", pid(2, 1), 2, 300);

    reg.remove_by_node(1);

    assert!(reg.lookup("svc1").is_none());
    assert!(reg.lookup("svc2").is_none());
    assert!(reg.lookup("svc3").is_some());
}

#[test]
fn remove_by_node_preserves_other_nodes() {
    let mut reg = Registry::new();
    reg.register("shared", pid(1, 1), 1, 100);
    reg.register("shared", pid(2, 1), 2, 200);

    reg.remove_by_node(1);

    let entry = reg.lookup("shared").expect("node 2 entry should remain");
    assert_eq!(entry.node_id, 2);
}

#[test]
fn merge_delta_add() {
    let mut reg = Registry::new();
    let tag = uuid::Uuid::new_v4().as_u128();
    let entry = RegistryEntry {
        name: "remote_svc".to_string(),
        pid: pid(2, 10),
        tag,
        timestamp: 500,
        node_id: 2,
    };

    reg.merge_delta(RegistryDelta::Add(entry));

    let found = reg.lookup("remote_svc").unwrap();
    assert_eq!(found.tag, tag);
    assert_eq!(found.pid, pid(2, 10));
}

#[test]
fn merge_delta_remove() {
    let mut reg = Registry::new();
    let tag = reg.register("doomed", pid(1, 1), 1, 100);

    reg.merge_delta(RegistryDelta::Remove {
        name: "doomed".to_string(),
        tag,
    });

    assert!(reg.lookup("doomed").is_none());
}

#[test]
fn merge_delta_add_then_remove() {
    let mut reg = Registry::new();
    let tag = uuid::Uuid::new_v4().as_u128();
    let entry = RegistryEntry {
        name: "ephemeral".to_string(),
        pid: pid(3, 1),
        tag,
        timestamp: 100,
        node_id: 3,
    };

    reg.merge_delta(RegistryDelta::Add(entry));
    assert!(reg.lookup("ephemeral").is_some());

    reg.merge_delta(RegistryDelta::Remove {
        name: "ephemeral".to_string(),
        tag,
    });
    assert!(reg.lookup("ephemeral").is_none());
}

#[test]
fn merge_delta_remove_then_add_with_new_tag() {
    let mut reg = Registry::new();
    let old_tag = reg.register("phoenix", pid(1, 1), 1, 100);

    // Remote removes the old tag
    reg.merge_delta(RegistryDelta::Remove {
        name: "phoenix".to_string(),
        tag: old_tag,
    });
    assert!(reg.lookup("phoenix").is_none());

    // Remote re-registers with a new tag
    let new_tag = uuid::Uuid::new_v4().as_u128();
    reg.merge_delta(RegistryDelta::Add(RegistryEntry {
        name: "phoenix".to_string(),
        pid: pid(2, 5),
        tag: new_tag,
        timestamp: 200,
        node_id: 2,
    }));

    let entry = reg.lookup("phoenix").unwrap();
    assert_eq!(entry.tag, new_tag);
    assert_eq!(entry.pid, pid(2, 5));
}

#[test]
fn merge_idempotent_add() {
    let mut reg = Registry::new();
    let tag = uuid::Uuid::new_v4().as_u128();
    let entry = RegistryEntry {
        name: "idempotent".to_string(),
        pid: pid(1, 1),
        tag,
        timestamp: 100,
        node_id: 1,
    };

    reg.merge_delta(RegistryDelta::Add(entry.clone()));
    reg.merge_delta(RegistryDelta::Add(entry));

    // Should still only have one entry for this name with this tag
    let all = reg.registered();
    let count = all.iter().filter(|(n, _)| n == "idempotent").count();
    assert_eq!(count, 1);

    // Also verify that only one registration is held
    let held = reg.generate_deltas();
    assert_eq!(held.len(), 1);
}

#[test]
fn merge_tombstoned_tag_not_re_added() {
    let mut reg = Registry::new();
    let tag = uuid::Uuid::new_v4().as_u128();
    let entry = RegistryEntry {
        name: "zombie".to_string(),
        pid: pid(1, 1),
        tag,
        timestamp: 100,
        node_id: 1,
    };

    // Add then remove
    reg.merge_delta(RegistryDelta::Add(entry.clone()));
    reg.merge_delta(RegistryDelta::Remove {
        name: "zombie".to_string(),
        tag,
    });
    assert!(reg.lookup("zombie").is_none());

    // Try to re-add with the same tag -- should be rejected
    reg.merge_delta(RegistryDelta::Add(entry));
    assert!(
        reg.lookup("zombie").is_none(),
        "tombstoned tag must not be resurrected"
    );
}

#[test]
fn two_registries_converge_after_delta_exchange() {
    let mut reg_a = Registry::new();
    let mut reg_b = Registry::new();

    // Node A registers "counter"
    let tag_a = reg_a.register("counter", pid(1, 10), 1, 100);

    // Node B registers "logger"
    let tag_b = reg_b.register("logger", pid(2, 20), 2, 200);

    // Exchange deltas: A -> B
    let deltas_a = vec![RegistryDelta::Add(RegistryEntry {
        name: "counter".to_string(),
        pid: pid(1, 10),
        tag: tag_a,
        timestamp: 100,
        node_id: 1,
    })];
    for d in deltas_a {
        reg_b.merge_delta(d);
    }

    // Exchange deltas: B -> A
    let deltas_b = vec![RegistryDelta::Add(RegistryEntry {
        name: "logger".to_string(),
        pid: pid(2, 20),
        tag: tag_b,
        timestamp: 200,
        node_id: 2,
    })];
    for d in deltas_b {
        reg_a.merge_delta(d);
    }

    // Both should now see both names
    assert_eq!(reg_a.registered().len(), 2);
    assert_eq!(reg_b.registered().len(), 2);

    let a_counter = reg_a.lookup("counter").unwrap();
    let b_counter = reg_b.lookup("counter").unwrap();
    assert_eq!(a_counter.pid, b_counter.pid);

    let a_logger = reg_a.lookup("logger").unwrap();
    let b_logger = reg_b.lookup("logger").unwrap();
    assert_eq!(a_logger.pid, b_logger.pid);
}

#[test]
fn concurrent_adds_different_names_merge_cleanly() {
    let mut reg_a = Registry::new();
    let mut reg_b = Registry::new();

    let tag_a = reg_a.register("cache", pid(1, 1), 1, 100);
    let tag_b = reg_b.register("db", pid(2, 1), 2, 100);

    // A -> B
    reg_b.merge_delta(RegistryDelta::Add(RegistryEntry {
        name: "cache".to_string(),
        pid: pid(1, 1),
        tag: tag_a,
        timestamp: 100,
        node_id: 1,
    }));

    // B -> A
    reg_a.merge_delta(RegistryDelta::Add(RegistryEntry {
        name: "db".to_string(),
        pid: pid(2, 1),
        tag: tag_b,
        timestamp: 100,
        node_id: 2,
    }));

    // Both see both
    let a_all = reg_a.registered();
    let b_all = reg_b.registered();
    assert_eq!(a_all.len(), 2);
    assert_eq!(b_all.len(), 2);
    assert_eq!(a_all, b_all);
}

#[test]
fn concurrent_adds_same_name_lww_after_merge() {
    let mut reg_a = Registry::new();
    let mut reg_b = Registry::new();

    // Both register same name concurrently, but B has later timestamp
    let tag_a = reg_a.register("leader", pid(1, 1), 1, 100);
    let tag_b = reg_b.register("leader", pid(2, 1), 2, 200);

    // A -> B
    reg_b.merge_delta(RegistryDelta::Add(RegistryEntry {
        name: "leader".to_string(),
        pid: pid(1, 1),
        tag: tag_a,
        timestamp: 100,
        node_id: 1,
    }));

    // B -> A
    reg_a.merge_delta(RegistryDelta::Add(RegistryEntry {
        name: "leader".to_string(),
        pid: pid(2, 1),
        tag: tag_b,
        timestamp: 200,
        node_id: 2,
    }));

    // Both should agree: node 2 wins (higher timestamp)
    let a_leader = reg_a.lookup("leader").unwrap();
    let b_leader = reg_b.lookup("leader").unwrap();
    assert_eq!(a_leader.pid, pid(2, 1));
    assert_eq!(b_leader.pid, pid(2, 1));
    assert_eq!(a_leader.node_id, b_leader.node_id);
}

#[test]
fn register_empty_name() {
    let mut reg = Registry::new();
    let p = pid(1, 1);
    reg.register("", p, 1, 100);

    let entry = reg.lookup("").expect("empty name should be valid");
    assert_eq!(entry.pid, p);
    assert_eq!(entry.name, "");
}

fn entry(name: &str, pid: ProcessId, tag: u128, timestamp: u64, node_id: u64) -> RegistryEntry {
    RegistryEntry { name: name.to_string(), pid, tag, timestamp, node_id }
}

#[test]
fn a_full_sync_brings_a_removal_over() {
    let mut a = Registry::new();
    let mut b = Registry::new();
    a.register("x", pid(1, 1), 1, 100);
    for delta in a.generate_deltas() {
        b.merge_delta(delta);
    }
    assert!(b.lookup("x").is_some());
    a.unregister("x");
    for delta in a.generate_deltas() {
        b.merge_delta(delta);
    }
    assert!(b.lookup("x").is_none());
    assert!(a.registered().is_empty());
    assert_eq!(b.registered(), a.registered());
}

#[test]
fn full_syncs_both_ways_converge() {
    let mut a = Registry::new();
    let mut b = Registry::new();
    a.register("x", pid(1, 1), 1, 100);
    a.register("y", pid(1, 2), 1, 100);
    b.register("x", pid(2, 1), 2, 200);
    b.register("z", pid(2, 2), 2, 100);
    for delta in a.generate_deltas() {
        b.merge_delta(delta);
    }
    a.unregister("y");
    b.unregister("z");
    let (from_a, from_b) = (a.generate_deltas(), b.generate_deltas());
    for delta in from_b {
        a.merge_delta(delta);
    }
    for delta in from_a {
        b.merge_delta(delta);
    }
    assert_eq!(a.registered(), vec![("x".to_string(), pid(2, 1))]);
    assert_eq!(a.registered(), b.registered());
}

#[test]
fn ties_do_not_depend_on_the_order_of_arrival() {
    let by_tag = [entry("n", pid(1, 1), 7, 100, 1), entry("n", pid(1, 2), 9, 100, 1)];
    let by_pid = [entry("m", pid(1, 5), 7, 100, 1), entry("m", ProcessId::new(1, 1, 2), 7, 100, 1)];
    let mut a = Registry::new();
    let mut b = Registry::new();
    a.merge_delta(RegistryDelta::Add(by_tag[0].clone()));
    a.merge_delta(RegistryDelta::Add(by_tag[1].clone()));
    b.merge_delta(RegistryDelta::Add(by_tag[1].clone()));
    b.merge_delta(RegistryDelta::Add(by_tag[0].clone()));
    assert_eq!(a.lookup("n").unwrap().pid, pid(1, 2));
    assert_eq!(a.lookup("n"), b.lookup("n"));
    for (first, second) in [(0, 1), (1, 0)] {
        let mut reg = Registry::new();
        for i in [first, second] {
            let e: &RegistryEntry = &by_pid[i];
            reg.register_tagged(&e.name, e.pid, e.node_id, e.timestamp, e.tag);
        }
        assert_eq!(reg.lookup("m").unwrap().pid, ProcessId::new(1, 1, 2));
    }
}
