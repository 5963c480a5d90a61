//! What membership, failure detection and gossip promise from one call to the next.
use crate::cluster::swim::config::{SwimConfig, SwimConfigBuilder};
use crate::cluster::swim::detector::{
    expired, probe_targets, targets_are_the_others_not_dead, time_is_up_after_the_span,
    FailureDetector,
};
use crate::cluster::swim::gossip::{GossipQueue, GossipUpdate};
use crate::cluster::swim::member::{
    candidates_are_the_others_alive, in_state, Member, MembershipList, NodeState,
};
use crate::time::{Duration, Instant};
use vstd::prelude::*;

verus! {

/// A member that was added is found under its node, as it was added, and one whose node was
/// removed is not; no other member changes.
pub proof fn members_are_found_until_removed(
    before: MembershipList,
    member: Member,
    added: MembershipList,
    removed: MembershipList,
    found: Option<&Member>,
    gone: Option<&Member>,
    other: u64,
    was: Option<&Member>,
    still: Option<&Member>,
)
    requires
        other != member.node_id,
        exists|m: &mut MembershipList|
            *m == before && *final(m) == added && #[trigger] call_ensures(
                MembershipList::add,
                (m, member),
                (),
            ),
        exists|m: &mut MembershipList|
            *m == added && *final(m) == removed && #[trigger] call_ensures(
                MembershipList::remove_node,
                (m, member.node_id),
                (),
            ),
        call_ensures(MembershipList::get, (&added, member.node_id), found),
        call_ensures(MembershipList::get, (&removed, member.node_id), gone),
        call_ensures(MembershipList::get, (&before, other), was),
        call_ensures(MembershipList::get, (&removed, other), still),
    ensures
        found == Some(&member),
        gone is None,
        still is Some <==> was is Some,
        still is Some ==> *still->0 == *was->0,
{
}

/// A member that is declared dead is dead, in the incarnation that it had, and leaves with the
/// dead; no other member changes.
pub proof fn the_dead_leave(
    before: MembershipList,
    node_id: u64,
    marked: MembershipList,
    cleared: MembershipList,
    was: Option<&Member>,
    dead: Option<&Member>,
    gone: Option<&Member>,
    other: u64,
    other_was: Option<&Member>,
    other_is: Option<&Member>,
)
    requires
        other != node_id,
        exists|m: &mut MembershipList|
            *m == before && *final(m) == marked && #[trigger] call_ensures(
                MembershipList::mark_dead,
                (m, node_id),
                (),
            ),
        exists|m: &mut MembershipList|
            *m == marked && *final(m) == cleared && #[trigger] call_ensures(
                MembershipList::remove_dead,
                (m,),
                (),
            ),
        call_ensures(MembershipList::get, (&before, node_id), was),
        call_ensures(MembershipList::get, (&marked, node_id), dead),
        call_ensures(MembershipList::get, (&cleared, node_id), gone),
        call_ensures(MembershipList::get, (&before, other), other_was),
        call_ensures(MembershipList::get, (&cleared, other), other_is),
    ensures
        was is Some ==> dead is Some && dead->0.state == NodeState::Dead && dead->0.incarnation
            == was->0.incarnation,
        gone is None,
        other_is is Some <==> other_was is Some && other_was->0.state != NodeState::Dead,
        other_is is Some ==> *other_is->0 == *other_was->0,
{
    assert(before@.dom().contains(node_id) ==> marked@.dom().contains(node_id));
    assert(in_state(marked@, NodeState::Dead).contains(other) <==> marked@.dom().contains(other)
        && marked@[other].state == NodeState::Dead);
    assert(in_state(marked@, NodeState::Dead).contains(node_id) <==> marked@.dom().contains(node_id)
        && marked@[node_id].state == NodeState::Dead);
}

/// All members are listed, and who is listed is a member; the alive are no more than all.
pub proof fn all_members_are_listed(
    s: MembershipList,
    list: Vec<Member>,
    node_id: u64,
    found: Option<&Member>,
    alive: usize,
    m: Member,
)
    requires
        s.wf(),
        call_ensures(MembershipList::all_members, (&s,), list),
        call_ensures(MembershipList::get, (&s, node_id), found),
        call_ensures(MembershipList::alive_count, (&s,), alive),
    ensures
        found is Some ==> list@.contains(*found->0),
        list@.contains(m) ==> s.has(m),
        list@.len() == s@.dom().len(),
{
    if found is Some {
        assert(s@.dom().contains(node_id) && s@[node_id] == *found->0);
        assert(s.has(*found->0));
    }
}

/// A member takes word of itself in the newest incarnation: suspicion in its own or a newer one,
/// life only in a newer one. A dead member takes none.
pub proof fn members_take_newest_word(
    m: Member,
    incarnation: u64,
    suspect: Member,
    alive: Member,
    dead: Member,
)
    requires
        exists|x: &mut Member|
            *x == m && *final(x) == suspect && #[trigger] call_ensures(
                Member::suspect,
                (x, incarnation),
                (),
            ),
        exists|x: &mut Member|
            *x == m && *final(x) == alive && #[trigger] call_ensures(
                Member::alive,
                (x, incarnation),
                (),
            ),
        exists|x: &mut Member|
            *x == m && *final(x) == dead && #[trigger] call_ensures(
                Member::dead,
                (x,),
                (),
            ),
    ensures
        m.state != NodeState::Dead && incarnation >= m.incarnation ==> suspect.state
            == NodeState::Suspect && suspect.incarnation == incarnation,
        m.state == NodeState::Dead || incarnation < m.incarnation ==> suspect == m,
        m.state != NodeState::Dead && incarnation > m.incarnation ==> alive.state == NodeState::Alive
            && alive.incarnation == incarnation,
        m.state == NodeState::Dead || incarnation <= m.incarnation ==> alive == m,
        dead.state == NodeState::Dead,
        dead.incarnation == m.incarnation,
        dead.node_id == m.node_id,
        suspect.node_id == m.node_id,
        alive.node_id == m.node_id,
{
}

/// A node that does not answer is suspected, and once the time is up it is declared dead, unless
/// it answered meanwhile: then it is alive, in a new incarnation, and is not declared dead.
pub proof fn silence_kills_and_answers_save(
    d0: FailureDetector,
    members: MembershipList,
    node_id: u64,
    at: Instant,
    d1: FailureDetector,
    suspecting: MembershipList,
    d2: FailureDetector,
    saved: MembershipList,
    config: SwimConfig,
    now: Instant,
    d3: FailureDetector,
    after: MembershipList,
    dead: Vec<u64>,
    d4: FailureDetector,
    spared: MembershipList,
    none: Vec<u64>,
)
    requires
        members@.dom().contains(node_id),
        members@[node_id].state == NodeState::Alive,
        members@[node_id].incarnation < u64::MAX,
        !d0.suspects().dom().contains(node_id),
        now@ >= at@ + config.suspect_timeout@,
        exists|d: &mut FailureDetector, m: &mut MembershipList|
            *d == d0 && *final(d) == d1 && *m == members && *final(m) == suspecting
                && #[trigger] call_ensures(
                FailureDetector::record_nack,
                (d, m, node_id, at),
                (),
            ),
        exists|d: &mut FailureDetector, m: &mut MembershipList|
            *d == d1 && *final(d) == d3 && *m == suspecting && *final(m) == after
                && #[trigger] call_ensures(
                FailureDetector::check_suspect_timeouts,
                (d, m, &config, now),
                dead,
            ),
        exists|d: &mut FailureDetector, m: &mut MembershipList|
            *d == d1 && *final(d) == d2 && *m == suspecting && *final(m) == saved
                && #[trigger] call_ensures(
                FailureDetector::record_ack,
                (d, m, node_id),
                (),
            ),
        exists|d: &mut FailureDetector, m: &mut MembershipList|
            *d == d2 && *final(d) == d4 && *m == saved && *final(m) == spared
                && #[trigger] call_ensures(
                FailureDetector::check_suspect_timeouts,
                (d, m, &config, now),
                none,
            ),
    ensures
        suspecting@[node_id].state == NodeState::Suspect,
        d1.suspects()[node_id] == at,
        dead@.contains(node_id),
        after@[node_id].state == NodeState::Dead,
        d3.dead()[node_id] == now,
        saved@[node_id].state == NodeState::Alive,
        saved@[node_id].incarnation == members@[node_id].incarnation + 1,
        !none@.contains(node_id),
        spared@[node_id].state == NodeState::Alive,
{
    time_is_up_after_the_span(d1.suspects(), now, config.suspect_timeout, node_id);
    assert(dead@.to_set().contains(node_id));
    assert(none@.contains(node_id) ==> none@.to_set().contains(node_id));
    assert(!expired(d2.suspects(), now, config.suspect_timeout).contains(node_id));
}

/// A node is not declared dead before the time is up.
pub proof fn suspects_have_time(
    d0: FailureDetector,
    members: MembershipList,
    node_id: u64,
    at: Instant,
    d1: FailureDetector,
    suspecting: MembershipList,
    config: SwimConfig,
    now: Instant,
    d3: FailureDetector,
    after: MembershipList,
    dead: Vec<u64>,
)
    requires
        !d0.suspects().dom().contains(node_id),
        at@ <= now@ < at@ + config.suspect_timeout@,
        exists|d: &mut FailureDetector, m: &mut MembershipList|
            *d == d0 && *final(d) == d1 && *m == members && *final(m) == suspecting
                && #[trigger] call_ensures(
                FailureDetector::record_nack,
                (d, m, node_id, at),
                (),
            ),
        exists|d: &mut FailureDetector, m: &mut MembershipList|
            *d == d1 && *final(d) == d3 && *m == suspecting && *final(m) == after
                && #[trigger] call_ensures(
                FailureDetector::check_suspect_timeouts,
                (d, m, &config, now),
                dead,
            ),
    ensures
        !dead@.contains(node_id),
        suspecting@.dom().contains(node_id) ==> after@[node_id] == suspecting@[node_id],
{
    time_is_up_after_the_span(d1.suspects(), now, config.suspect_timeout, node_id);
    assert(dead@.contains(node_id) ==> dead@.to_set().contains(node_id));
    assert(dead@.to_set().contains(node_id) ==> dead@.contains(node_id));
}

/// A node that was declared dead is removed once the delay has gone by, and not before; whoever is
/// not dead stays.
pub proof fn the_dead_are_removed_in_time(
    d0: FailureDetector,
    members: MembershipList,
    config: SwimConfig,
    now: Instant,
    d1: FailureDetector,
    after: MembershipList,
    removed: Vec<u64>,
    node_id: u64,
)
    requires
        config.dead_removal_delay@ > 0,
        exists|d: &mut FailureDetector, m: &mut MembershipList|
            *d == d0 && *final(d) == d1 && *m == members && *final(m) == after
                && #[trigger] call_ensures(
                FailureDetector::remove_expired_dead,
                (d, m, &config, now),
                removed,
            ),
    ensures
        removed@.contains(node_id) ==> members@.dom().contains(node_id) && members@[node_id].state
            == NodeState::Dead && now@ >= d0.dead()[node_id]@ + config.dead_removal_delay@,
        members@.dom().contains(node_id) && members@[node_id].state == NodeState::Dead
            && d0.dead().dom().contains(node_id) && now@ >= d0.dead()[node_id]@
            + config.dead_removal_delay@ ==> removed@.contains(node_id),
        after@.dom().contains(node_id) <==> members@.dom().contains(node_id) && !removed@.contains(
            node_id,
        ),
{
    time_is_up_after_the_span(d0.dead(), now, config.dead_removal_delay, node_id);
    assert(removed@.contains(node_id) <==> removed@.to_set().contains(node_id));
}

/// Who is probed is another member that is not dead, and somebody is where there is one.
pub proof fn probes_go_to_others_not_dead(
    d: FailureDetector,
    members: MembershipList,
    self_id: u64,
    r: Option<u64>,
    list: Vec<u64>,
    node_id: u64,
)
    requires
        call_ensures(FailureDetector::tick, (&d, &members, self_id), r),
        call_ensures(probe_targets, (&members, self_id), list),
        members@.dom().contains(node_id),
    ensures
        r != Some(self_id),
        !list@.contains(self_id),
        members@[node_id].node_id != self_id && members@[node_id].state != NodeState::Dead
            ==> r is Some && list@.contains(members@[node_id].node_id),
        r is Some ==> exists|m: Member| #[trigger]
            members.has(m) && m.node_id == r->0 && m.state != NodeState::Dead,
{
    targets_are_the_others_not_dead(members@, self_id, list@);
    assert(members.has(members@[node_id]));
}

/// Who is chosen to be asked is another member that is alive, and somebody is where there is one.
pub proof fn choices_are_others_alive(
    s: MembershipList,
    exclude: u64,
    r: Option<Member>,
    list: Vec<Member>,
    node_id: u64,
)
    requires
        call_ensures(MembershipList::random_alive_member, (&s, exclude), r),
        call_ensures(MembershipList::alive_members, (&s, exclude), list),
        s@.dom().contains(node_id),
    ensures
        r matches Some(m) ==> s.has(m) && m.state == NodeState::Alive && m.node_id != exclude,
        s@[node_id].state == NodeState::Alive && s@[node_id].node_id != exclude ==> r is Some
            && list@.contains(s@[node_id]),
{
    candidates_are_the_others_alive(s@, exclude, list@);
}

/// What is put behind other gossip is told behind it: a draining tells the oldest, as many as it
/// may, and leaves the rest for the next.
pub proof fn gossip_is_told_in_turn(
    q: GossipQueue,
    update: GossipUpdate,
    longer: GossipQueue,
    max: usize,
    left: GossipQueue,
    told: Vec<GossipUpdate>,
)
    requires
        exists|m: &mut GossipQueue|
            *m == q && *final(m) == longer && #[trigger] call_ensures(
                GossipQueue::add,
                (m, update),
                (),
            ),
        exists|m: &mut GossipQueue|
            *m == longer && *final(m) == left && #[trigger] call_ensures(
                GossipQueue::drain,
                (m, max),
                told,
            ),
    ensures
        told@ + left@ == q@.push(update),
        told@.len() <= max,
        told@.len() < max ==> left@.len() == 0 && told@.last() == update,
{
}

/// A setting that was given is the one that is built, and the others stay.
pub proof fn settings_are_built_as_given(
    b: SwimConfigBuilder,
    d: Duration,
    n: usize,
    b1: SwimConfigBuilder,
    c1: SwimConfig,
    b2: SwimConfigBuilder,
    c2: SwimConfig,
    b3: SwimConfigBuilder,
    c3: SwimConfig,
    b4: SwimConfigBuilder,
    c4: SwimConfig,
    b5: SwimConfigBuilder,
    c5: SwimConfig,
    c: SwimConfig,
)
    requires
        call_ensures(SwimConfigBuilder::build, (b,), c),
        call_ensures(SwimConfigBuilder::protocol_period, (b, d), b1),
        call_ensures(SwimConfigBuilder::build, (b1,), c1),
        call_ensures(SwimConfigBuilder::suspect_timeout, (b, d), b2),
        call_ensures(SwimConfigBuilder::build, (b2,), c2),
        call_ensures(SwimConfigBuilder::dead_removal_delay, (b, d), b3),
        call_ensures(SwimConfigBuilder::build, (b3,), c3),
        call_ensures(SwimConfigBuilder::indirect_probe_count, (b, n), b4),
        call_ensures(SwimConfigBuilder::build, (b4,), c4),
        call_ensures(SwimConfigBuilder::max_gossip_per_tick, (b, n), b5),
        call_ensures(SwimConfigBuilder::build, (b5,), c5),
    ensures
        c1.protocol_period == d && c1.suspect_timeout == c.suspect_timeout,
        c2.suspect_timeout == d && c2.dead_removal_delay == c.dead_removal_delay,
        c3.dead_removal_delay == d && c3.protocol_period == c.protocol_period,
        c4.indirect_probe_count == n && c4.max_gossip_per_tick == c.max_gossip_per_tick,
        c5.max_gossip_per_tick == n && c5.indirect_probe_count == c.indirect_probe_count,
{
}

/// The timers that are told of are those of the suspected nodes, each with its own time.
pub proof fn timers_of_suspects_are_told(
    d: FailureDetector,
    r: Vec<(u64, Instant)>,
    i: int,
)
    requires
        call_ensures(FailureDetector::suspect_timers, (&d,), r),
        0 <= i < r@.len(),
    ensures
        r@.len() == d.suspects().dom().len(),
        d.suspects().dom().contains(r@[i].0),
        d.suspects()[r@[i].0] == r@[i].1,
{
    let e = r@[i];
}

/// Where nothing else is said, a probe goes out each second with three others to ask and eight
/// pieces of gossip at most, a suspect has five seconds, and the dead are kept for thirty.
pub proof fn membership_has_its_times(
    c: SwimConfig,
    b: SwimConfigBuilder,
    d: SwimConfig,
)
    requires
        call_ensures(<SwimConfig as Default>::default, (), c),
        call_ensures(SwimConfig::builder, (), b),
        call_ensures(SwimConfigBuilder::build, (b,), d),
    ensures
        c.protocol_period@ == 1_000_000_000 && c.suspect_timeout@ == 5_000_000_000
            && c.dead_removal_delay@ == 30_000_000_000 && c.indirect_probe_count == 3
            && c.max_gossip_per_tick == 8,
        d.protocol_period@ == 1_000_000_000 && d.suspect_timeout@ == 5_000_000_000
            && d.dead_removal_delay@ == 30_000_000_000 && d.indirect_probe_count == 3
            && d.max_gossip_per_tick == 8,
{
}

} // verus!
