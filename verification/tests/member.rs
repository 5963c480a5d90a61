//! Members and the list of them.
use rebar::cluster::addr::SocketAddr;
use rebar::cluster::swim::member::{Member, MembershipList, NodeState};

#[test]
fn new_member_is_alive() {
    let member = Member::new(1, SocketAddr::v4(127, 0, 0, 1, 4000));
    assert_eq!(member.state, NodeState::Alive);
    assert_eq!(member.incarnation, 0);
}

#[test]
fn suspect_member() {
    let mut member = Member::new(1, SocketAddr::v4(127, 0, 0, 1, 4000));
    member.suspect(1);
    assert_eq!(member.state, NodeState::Suspect);
}

#[test]
fn refute_suspicion_with_higher_incarnation() {
    let mut member = Member::new(1, SocketAddr::v4(127, 0, 0, 1, 4000));
    member.suspect(0);
    assert_eq!(member.state, NodeState::Suspect);
    member.alive(1);
    assert_eq!(member.state, NodeState::Alive);
    assert_eq!(member.incarnation, 1);
}

#[test]
fn ignore_stale_alive() {
    let mut member = Member::new(1, SocketAddr::v4(127, 0, 0, 1, 4000));
    member.suspect(5);
    member.alive(3); // stale
    assert_eq!(member.state, NodeState::Suspect);
}

#[test]
fn declare_dead() {
    let mut member = Member::new(1, SocketAddr::v4(127, 0, 0, 1, 4000));
    member.dead();
    assert_eq!(member.state, NodeState::Dead);
}

#[test]
fn dead_cannot_be_revived() {
    let mut member = Member::new(1, SocketAddr::v4(127, 0, 0, 1, 4000));
    member.dead();
    member.alive(100);
    assert_eq!(member.state, NodeState::Dead);
}

#[test]
fn suspect_with_lower_incarnation_ignored() {
    let mut member = Member::new(1, SocketAddr::v4(127, 0, 0, 1, 4000));
    member.alive(5);
    member.suspect(3); // lower than current incarnation
    assert_eq!(member.state, NodeState::Alive);
}

#[test]
fn membership_list_add_and_get() {
    let mut list = MembershipList::new();
    list.add(Member::new(1, SocketAddr::v4(127, 0, 0, 1, 4000)));
    assert!(list.get(1).is_some());
    assert_eq!(list.alive_count(), 1);
}

#[test]
fn membership_list_remove_dead() {
    let mut list = MembershipList::new();
    list.add(Member::new(1, SocketAddr::v4(127, 0, 0, 1, 4000)));
    list.mark_dead(1);
    list.remove_dead();
    assert_eq!(list.alive_count(), 0);
    assert!(list.get(1).is_none());
}

#[test]
fn membership_list_random_alive_excludes_self() {
    let mut list = MembershipList::new();
    list.add(Member::new(1, SocketAddr::v4(127, 0, 0, 1, 4001)));
    list.add(Member::new(2, SocketAddr::v4(127, 0, 0, 1, 4002)));
    // Exclude node 1 (self)
    for _ in 0..20 {
        let pick = list.random_alive_member(1).unwrap();
        assert_eq!(pick.node_id, 2);
    }
}

#[test]
fn membership_list_random_alive_excludes_dead() {
    let mut list = MembershipList::new();
    list.add(Member::new(1, SocketAddr::v4(127, 0, 0, 1, 4001)));
    list.add(Member::new(2, SocketAddr::v4(127, 0, 0, 1, 4002)));
    list.mark_dead(2);
    // Only node 1 is alive, exclude node 0 (self)
    let pick = list.random_alive_member(0);
    assert!(pick.is_some());
    assert_eq!(pick.unwrap().node_id, 1);
}

#[test]
fn membership_list_random_alive_excludes_suspect() {
    let mut list = MembershipList::new();
    list.add(Member::new(1, SocketAddr::v4(127, 0, 0, 1, 4001)));
    list.add(Member::new(2, SocketAddr::v4(127, 0, 0, 1, 4002)));
    if let Some(m) = list.get_mut(2) {
        m.suspect(0);
    }
    // Only node 1 is Alive
    for _ in 0..20 {
        let pick = list.random_alive_member(0).unwrap();
        assert_eq!(pick.node_id, 1);
    }
}

#[test]
fn membership_list_alive_count() {
    let mut list = MembershipList::new();
    list.add(Member::new(1, SocketAddr::v4(127, 0, 0, 1, 4001)));
    list.add(Member::new(2, SocketAddr::v4(127, 0, 0, 1, 4002)));
    list.add(Member::new(3, SocketAddr::v4(127, 0, 0, 1, 4003)));
    assert_eq!(list.alive_count(), 3);
    list.mark_dead(2);
    assert_eq!(list.alive_count(), 2);
}

#[test]
fn membership_list_all_members_iter() {
    let mut list = MembershipList::new();
    list.add(Member::new(1, SocketAddr::v4(127, 0, 0, 1, 4001)));
    list.add(Member::new(2, SocketAddr::v4(127, 0, 0, 1, 4002)));
    assert_eq!(list.all_members().len(), 2);
}

#[test]
fn membership_list_empty_random_returns_none() {
    let list = MembershipList::new();
    assert!(list.random_alive_member(0).is_none());
}

#[test]
fn member_with_cert_hash() {
    let hash = [42u8; 32];
    let mut member = Member::new(1, SocketAddr::v4(127, 0, 0, 1, 4000));
    member.cert_hash = Some(hash);
    assert_eq!(member.cert_hash, Some(hash));
}
