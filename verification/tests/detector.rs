//! The detection of failures.
use rebar::cluster::addr::SocketAddr;
use rebar::cluster::swim::config::SwimConfig;
use rebar::cluster::swim::detector::{probe_targets, FailureDetector};
use rebar::cluster::swim::member::{pick, Member, MembershipList, NodeState};
use rebar::time::{Duration, Instant};

fn addr(port: u16) -> SocketAddr {
    SocketAddr::v4(127, 0, 0, 1, port)
}

fn default_config() -> SwimConfig {
    SwimConfig::default()
}

#[test]
fn ping_alive_node_stays_alive() {
    let mut members = MembershipList::new();
    members.add(Member::new(1, addr(4001)));
    let mut detector = FailureDetector::new();

    // Node responds to ping -- record ack
    detector.record_ack(&mut members, 1);

    assert_eq!(members.get(1).unwrap().state, NodeState::Alive);
    assert!(detector.suspect_timers().is_empty());
}

#[test]
fn missed_ping_marks_suspect() {
    let mut members = MembershipList::new();
    members.add(Member::new(1, addr(4001)));
    let mut detector = FailureDetector::new();
    let now = Instant::from_nanos(1_000_000_000);

    detector.record_nack(&mut members, 1, now);

    assert_eq!(members.get(1).unwrap().state, NodeState::Suspect);
    assert!(detector.suspect_timers().iter().any(|(id, _)| *id == 1));
}

#[test]
fn suspect_timeout_marks_dead() {
    let mut members = MembershipList::new();
    members.add(Member::new(1, addr(4001)));
    let mut detector = FailureDetector::new();
    let config = default_config(); // suspect_timeout = 5s

    let t0 = Instant::from_nanos(1_000_000_000);
    detector.record_nack(&mut members, 1, t0);
    assert_eq!(members.get(1).unwrap().state, NodeState::Suspect);

    // Check before timeout -- still suspect
    let t1 = t0.checked_add(Duration::from_secs(3)).unwrap();
    let dead = detector.check_suspect_timeouts(&mut members, &config, t1);
    assert!(dead.is_empty());
    assert_eq!(members.get(1).unwrap().state, NodeState::Suspect);

    // Check after timeout -- now dead
    let t2 = t0.checked_add(Duration::from_secs(6)).unwrap();
    let dead = detector.check_suspect_timeouts(&mut members, &config, t2);
    assert_eq!(dead, vec![1]);
    assert_eq!(members.get(1).unwrap().state, NodeState::Dead);
}

#[test]
fn suspect_node_refutes_with_alive() {
    let mut members = MembershipList::new();
    members.add(Member::new(1, addr(4001)));
    let mut detector = FailureDetector::new();
    let now = Instant::from_nanos(1_000_000_000);

    // Miss a ping -> suspect
    detector.record_nack(&mut members, 1, now);
    assert_eq!(members.get(1).unwrap().state, NodeState::Suspect);

    // Node responds (refutes suspicion)
    detector.record_ack(&mut members, 1);
    assert_eq!(members.get(1).unwrap().state, NodeState::Alive);
    assert!(!detector.suspect_timers().iter().any(|(id, _)| *id == 1));
}

#[test]
fn indirect_probe_succeeds_keeps_alive() {
    let mut members = MembershipList::new();
    members.add(Member::new(1, addr(4001)));
    let mut detector = FailureDetector::new();
    let now = Instant::from_nanos(1_000_000_000);

    // Direct probe fails
    detector.record_nack(&mut members, 1, now);
    assert_eq!(members.get(1).unwrap().state, NodeState::Suspect);

    // Indirect probe succeeds -> ack
    detector.record_ack(&mut members, 1);
    assert_eq!(members.get(1).unwrap().state, NodeState::Alive);
    assert!(detector.suspect_timers().is_empty());
}

#[test]
fn dead_node_triggers_callback() {
    let mut members = MembershipList::new();
    members.add(Member::new(1, addr(4001)));
    let mut detector = FailureDetector::new();
    let config = default_config();

    let t0 = Instant::from_nanos(1_000_000_000);
    detector.record_nack(&mut members, 1, t0);

    let t1 = t0.checked_add(Duration::from_secs(6)).unwrap();
    let newly_dead = detector.check_suspect_timeouts(&mut members, &config, t1);

    // The return value acts as the "callback" -- caller receives dead node ids
    assert_eq!(newly_dead.len(), 1);
    assert_eq!(newly_dead[0], 1);
}

#[test]
fn multiple_suspects_tracked() {
    let mut members = MembershipList::new();
    members.add(Member::new(1, addr(4001)));
    members.add(Member::new(2, addr(4002)));
    members.add(Member::new(3, addr(4003)));
    let mut detector = FailureDetector::new();
    let config = default_config();

    let t0 = Instant::from_nanos(1_000_000_000);
    detector.record_nack(&mut members, 1, t0);
    detector.record_nack(&mut members, 2, t0);

    assert_eq!(detector.suspect_timers().len(), 2);
    assert_eq!(members.get(1).unwrap().state, NodeState::Suspect);
    assert_eq!(members.get(2).unwrap().state, NodeState::Suspect);
    assert_eq!(members.get(3).unwrap().state, NodeState::Alive);

    // Only node 2 recovers
    detector.record_ack(&mut members, 2);
    assert_eq!(detector.suspect_timers().len(), 1);

    // Expire remaining suspect
    let t1 = t0.checked_add(Duration::from_secs(6)).unwrap();
    let dead = detector.check_suspect_timeouts(&mut members, &config, t1);
    assert_eq!(dead, vec![1]);
}

#[test]
fn dead_removal_delay_respected() {
    let mut members = MembershipList::new();
    members.add(Member::new(1, addr(4001)));
    let mut detector = FailureDetector::new();
    let config = SwimConfig::builder()
        .suspect_timeout(Duration::from_secs(1))
        .dead_removal_delay(Duration::from_secs(10))
        .build();

    let t0 = Instant::from_nanos(1_000_000_000);
    detector.record_nack(&mut members, 1, t0);

    // Expire suspect -> dead
    let t1 = t0.checked_add(Duration::from_secs(2)).unwrap();
    detector.check_suspect_timeouts(&mut members, &config, t1);
    assert_eq!(members.get(1).unwrap().state, NodeState::Dead);

    // Before removal delay: node still in list
    let t2 = t1.checked_add(Duration::from_secs(5)).unwrap();
    let removed = detector.remove_expired_dead(&mut members, &config, t2);
    assert!(removed.is_empty());
    assert!(members.get(1).is_some());

    // After removal delay: node removed
    let t3 = t1.checked_add(Duration::from_secs(11)).unwrap();
    let removed = detector.remove_expired_dead(&mut members, &config, t3);
    assert_eq!(removed, vec![1]);
    assert!(members.get(1).is_none());
}

#[test]
fn tick_selects_random_target() {
    let mut members = MembershipList::new();
    members.add(Member::new(1, addr(4001)));
    members.add(Member::new(2, addr(4002)));
    members.add(Member::new(3, addr(4003)));
    let detector = FailureDetector::new();

    // Run many ticks; should always pick a node that isn't self (id=0)
    let mut seen = std::collections::HashSet::new();
    for _ in 0..100 {
        let target = detector.tick(&members, 0).unwrap();
        assert!(target == 1 || target == 2 || target == 3);
        seen.insert(target);
    }
    // Probabilistically should have seen all 3 nodes
    assert!(
        seen.len() >= 2,
        "Expected at least 2 distinct targets, got {}",
        seen.len()
    );
}

#[test]
fn no_targets_available_skips_tick() {
    let members = MembershipList::new();
    let detector = FailureDetector::new();

    // No members at all
    assert!(detector.tick(&members, 0).is_none());
}

#[test]
fn every_node_that_may_be_probed_is_listed_once() {
    let mut members = MembershipList::new();
    for node in 1..=4 {
        members.add(Member::new(node, addr(4000 + node as u16)));
    }
    members.get_mut(3).unwrap().state = NodeState::Dead;
    let mut targets = probe_targets(&members, 2);
    targets.sort();
    assert_eq!(targets, vec![1, 4]);
    assert_eq!(pick(&targets, Some(1)), Some(4));
    assert_eq!(pick(&targets, None), None);
    assert!(probe_targets(&MembershipList::new(), 2).is_empty());
}
