//! The detection of failures: who is probed, suspected, declared dead and removed.
use crate::assoc::{entry_in_map, Assoc, AssocKey};
use crate::cluster::swim::config::SwimConfig;
use crate::cluster::swim::member::{
    at_choice, chance_below, chosen_below, died, lists_members, members_of, pick, suspected,
    Member, MembershipList, NodeState,
};
use crate::time::{elapsed, Duration, Instant};
use vstd::prelude::*;

verus! {

/// The nodes whose timer has run for the span or longer at `now`.
pub open spec fn expired(timers: Map<u64, Instant>, now: Instant, limit: Duration) -> Set<u64> {
    timers.dom().filter(|n: u64| elapsed(timers[n]@, now@) >= limit@)
}

/// The members of which those of the nodes are dead.
pub open spec fn killed(members: Map<u64, Member>, nodes: Set<u64>) -> Map<u64, Member> {
    Map::new(
        |n: u64| members.dom().contains(n),
        |n: u64|
            if nodes.contains(n) {
                died(members[n])
            } else {
                members[n]
            },
    )
}

/// The timers with one that starts at `now` for each of the nodes.
pub open spec fn started(timers: Map<u64, Instant>, nodes: Set<u64>, now: Instant) -> Map<
    u64,
    Instant,
> {
    Map::new(
        |n: u64| timers.dom().contains(n) || nodes.contains(n),
        |n: u64|
            if nodes.contains(n) {
                now
            } else {
                timers[n]
            },
    )
}

/// The dead among the members of the nodes.
pub open spec fn dead_among(members: Map<u64, Member>, nodes: Set<u64>) -> Set<u64> {
    nodes.filter(|n: u64| members.dom().contains(n) && members[n].state == NodeState::Dead)
}

/// Whether a member may be probed by the node.
pub open spec fn may_probe(m: Member, self_id: u64) -> bool {
    m.node_id != self_id && m.state != NodeState::Dead
}

/// Whether the node is of a member that may be probed.
pub open spec fn is_target(members: MembershipList, self_id: u64, node: u64) -> bool {
    exists|m: Member| #[trigger] members.has(m) && may_probe(m, self_id) && m.node_id == node
}

/// Whether a list has the nodes of the members at these keys, in the keys' order, and the keys are
/// those of all members that may be probed, each once.
pub open spec fn targets_of(
    members: Map<u64, Member>,
    self_id: u64,
    keys: Seq<u64>,
    targets: Seq<u64>,
) -> bool {
    &&& keys.no_duplicates()
    &&& forall|n: u64|
        members.dom().contains(n) && may_probe(members[n], self_id) <==> #[trigger] keys.contains(n)
    &&& targets.len() == keys.len()
    &&& forall|i: int|
        0 <= i < keys.len() ==> #[trigger] targets[i] == members[#[trigger] keys[i]].node_id
}

/// Whether a list has the node of every member that may be probed, each member once.
pub open spec fn lists_targets(
    members: Map<u64, Member>,
    self_id: u64,
    targets: Seq<u64>,
) -> bool {
    exists|keys: Seq<u64>| #[trigger] targets_of(members, self_id, keys, targets)
}

/// The nodes that may be probed: one for every other member that is not dead.
pub fn probe_targets(members: &MembershipList, self_id: u64) -> (r: Vec<u64>)
    requires
        members.wf(),
    ensures
        lists_targets(members@, self_id, r@),
        forall|n: u64|
            #![trigger members@.dom().contains(n)]
            members@.dom().contains(n) && members@[n].node_id != self_id && (members@[n].state
                == NodeState::Alive || members@[n].state == NodeState::Suspect) ==> r@.contains(
                members@[n].node_id,
            ),
        forall|k: int|
            0 <= k < r@.len() ==> #[trigger] r@[k] != self_id && exists|n: u64|
                #![trigger members@.dom().contains(n)]
                members@.dom().contains(n) && members@[n].node_id == r@[k] && members@[n].state
                    != NodeState::Dead,
{
    let all = members.all_members();
    let ghost nodes = choose|nodes: Seq<u64>| #[trigger]
        members_of(members@, nodes, all@) && forall|n: u64|
            members@.dom().contains(n) <==> #[trigger] nodes.contains(n);
    let ghost mut keys: Seq<u64> = Seq::empty();
    let mut targets: Vec<u64> = Vec::new();
    let mut i: usize = 0;
    assert(lists_members(members@, all@));
    while i < all.len()
        invariant
            members_of(members@, nodes, all@),
            forall|n: u64| members@.dom().contains(n) <==> #[trigger] nodes.contains(n),
            i <= all@.len(),
            keys.no_duplicates(),
            targets@.len() == keys.len(),
            forall|k: int|
                0 <= k < keys.len() ==> #[trigger] targets@[k] == members@[#[trigger] keys[k]].node_id,
            forall|n: u64|
                #![trigger keys.contains(n)]
                keys.contains(n) <==> exists|j: int|
                    0 <= j < i && #[trigger] nodes[j] == n && may_probe(members@[n], self_id),
        decreases all@.len() - i,
    {
        let m = all[i];
        let ghost key = nodes[i as int];
        let ghost prev = keys;
        assert(members@.dom().contains(nodes[i as int]) && m == members@[key]);
        if m.node_id != self_id && m.state != NodeState::Dead {
            targets.push(m.node_id);
            proof {
                if prev.contains(key) {
                    let j = choose|j: int|
                        0 <= j < i && #[trigger] nodes[j] == key && may_probe(
                            members@[key],
                            self_id,
                        );
                    assert(nodes[j] == nodes[i as int]);
                }
                keys = keys.push(key);
                assert forall|n: u64| #[trigger] keys.contains(n) <==> exists|j: int|
                    0 <= j < i + 1 && #[trigger] nodes[j] == n && may_probe(
                        members@[n],
                        self_id,
                    ) by {
                    contains_pushed(prev, key, n);
                    assert(nodes[i as int] == key);
                    if prev.contains(n) {
                        let j = choose|j: int|
                            0 <= j < i && #[trigger] nodes[j] == n && may_probe(
                                members@[n],
                                self_id,
                            );
                        assert(nodes[j] == n);
                    }
                }
            }
        }
        i = i + 1;
    }
    proof {
        assert forall|n: u64|
            members@.dom().contains(n) && may_probe(members@[n], self_id)
                <==> #[trigger] keys.contains(n) by {
            if members@.dom().contains(n) && may_probe(members@[n], self_id) {
                assert(nodes.contains(n));
                let j = choose|j: int| 0 <= j < nodes.len() && nodes[j] == n;
                assert(nodes[j] == n);
            }
            if keys.contains(n) {
                let j = choose|j: int|
                    0 <= j < i && #[trigger] nodes[j] == n && may_probe(members@[n], self_id);
                assert(nodes.contains(nodes[j]));
            }
        }
        assert(targets_of(members@, self_id, keys, targets@));
        targets_are_the_others_not_dead(members@, self_id, targets@);
    }
    targets
}

/// Who is probed: every other member that is alive or suspect, and neither the node itself nor a
/// member that is dead.
pub proof fn targets_are_the_others_not_dead(
    members: Map<u64, Member>,
    self_id: u64,
    targets: Seq<u64>,
)
    requires
        lists_targets(members, self_id, targets),
    ensures
        forall|n: u64|
            #![trigger members.dom().contains(n)]
            members.dom().contains(n) && members[n].node_id != self_id && (members[n].state
                == NodeState::Alive || members[n].state == NodeState::Suspect) ==> targets.contains(
                members[n].node_id,
            ),
        forall|k: int|
            0 <= k < targets.len() ==> #[trigger] targets[k] != self_id && exists|n: u64|
                #![trigger members.dom().contains(n)]
                members.dom().contains(n) && members[n].node_id == targets[k] && members[n].state
                    != NodeState::Dead,
        !targets.contains(self_id),
        (forall|n: u64| #[trigger] members.dom().contains(n) ==> members[n].node_id == n) ==> {
            &&& targets.no_duplicates()
            &&& forall|n: u64|
                #![trigger targets.contains(n)]
                targets.contains(n) <==> members.dom().contains(n) && n != self_id && (
                members[n].state == NodeState::Alive || members[n].state == NodeState::Suspect)
        },
        targets.len() == 0 <==> (forall|n: u64|
            #![trigger members.dom().contains(n)]
            members.dom().contains(n) ==> members[n].node_id == self_id || members[n].state
                == NodeState::Dead),
{
    let keys = choose|keys: Seq<u64>| #[trigger] targets_of(members, self_id, keys, targets);
    assert forall|n: u64| #[trigger]
        members.dom().contains(n) && members[n].node_id != self_id && (members[n].state
            == NodeState::Alive || members[n].state == NodeState::Suspect) implies targets.contains(
        members[n].node_id,
    ) by {
        assert(keys.contains(n));
        let k = choose|k: int| 0 <= k < keys.len() && keys[k] == n;
        assert(targets[k] == members[keys[k]].node_id);
    }
    assert forall|k: int| 0 <= k < targets.len() implies #[trigger] targets[k] != self_id
        && exists|n: u64| #[trigger]
        members.dom().contains(n) && members[n].node_id == targets[k] && members[n].state
            != NodeState::Dead by {
        assert(keys.contains(keys[k]));
        assert(targets[k] == members[keys[k]].node_id);
        assert(members.dom().contains(keys[k]));
    }
    if forall|n: u64| #[trigger] members.dom().contains(n) ==> members[n].node_id == n {
        assert forall|k: int| 0 <= k < targets.len() implies targets[k] == keys[k] by {
            assert(keys.contains(keys[k]));
            assert(targets[k] == members[keys[k]].node_id);
        }
        assert(targets =~= keys);
    }
    if targets.len() == 0 {
        assert forall|n: u64| #[trigger] members.dom().contains(n) implies members[n].node_id
            == self_id || members[n].state == NodeState::Dead by {
            assert(!targets.contains(members[n].node_id));
        }
    } else {
        assert(targets[0] != self_id);
    }
}

/// The nodes whose timer has run for the span or longer at `now`, each once.
fn expired_nodes(timers: &Assoc<u64, Instant>, now: Instant, limit: Duration) -> (r: Vec<u64>)
    requires
        timers.wf(),
    ensures
        r@.no_duplicates(),
        r@.to_set() == expired(timers@, now, limit),
{
    let n: usize = timers.len();
    let ghost items = timers.items();
    let mut out: Vec<u64> = Vec::new();
    let mut i: usize = 0;
    while i < n
        invariant
            timers.wf(),
            items == timers.items(),
            n == items.len(),
            i <= n,
            out@.no_duplicates(),
            forall|x: u64|
                #![trigger out@.contains(x)]
                out@.contains(x) <==> exists|j: int|
                    0 <= j < i && (#[trigger] items[j]).0 == x && elapsed(items[j].1@, now@)
                        >= limit@,
        decreases n - i,
    {
        let (id, at) = timers.entry(i);
        let ghost prev = out@;
        if !now.saturating_duration_since(*at).less_than(limit) {
            proof {
                if prev.contains(*id) {
                    let j = choose|j: int|
                        0 <= j < i && (#[trigger] items[j]).0 == *id && elapsed(items[j].1@, now@)
                            >= limit@;
                    assert(items[j].0.key() != items[i as int].0.key());
                }
            }
            out.push(*id);
            proof {
                assert(out@.no_duplicates());
                assert forall|x: u64|
                    #![trigger out@.contains(x)]
                    out@.contains(x) <==> exists|j: int|
                        0 <= j < i + 1 && (#[trigger] items[j]).0 == x && elapsed(
                            items[j].1@,
                            now@,
                        ) >= limit@ by {
                    contains_pushed(prev, *id, x);
                    if prev.contains(x) {
                        let j = choose|j: int|
                            0 <= j < i && (#[trigger] items[j]).0 == x && elapsed(
                                items[j].1@,
                                now@,
                            ) >= limit@;
                        assert(items[j].0 == x);
                    }
                    assert(items[i as int].0 == *id);
                }
            }
        }
        i = i + 1;
    }
    proof {
        assert forall|x: u64|
            out@.to_set().contains(x) <==> expired(timers@, now, limit).contains(x) by {
            if out@.contains(x) {
                let j = choose|j: int|
                    0 <= j < i && (#[trigger] items[j]).0 == x && elapsed(items[j].1@, now@)
                        >= limit@;
                entry_in_map(items, j);
            }
            if expired(timers@, now, limit).contains(x) {
                let j = choose|j: int| 0 <= j < items.len() && (#[trigger] items[j]).0.key() == x;
                entry_in_map(items, j);
                assert(items[j].0 == x);
            }
        }
        assert(out@.to_set() =~= expired(timers@, now, limit));
    }
    out
}

proof fn contains_pushed(s: Seq<u64>, x: u64, e: u64)
    ensures
        s.push(x).contains(e) <==> (s.contains(e) || e == x),
{
    if s.contains(e) {
        let i = choose|i: int| 0 <= i < s.len() && s[i] == e;
        assert(s.push(x)[i] == e);
    }
    assert(s.push(x)[s.len() as int] == x);
    if s.push(x).contains(e) && e != x {
        let i = choose|i: int| 0 <= i < s.push(x).len() && s.push(x)[i] == e;
        assert(s[i] == e);
    }
}

/// The timers of the suspected and of the dead.
pub struct FailureDetector {
    suspect_timers: Assoc<u64, Instant>,
    dead_timers: Assoc<u64, Instant>,
}

impl FailureDetector {
    /// When each suspected node was first suspected.
    pub closed spec fn suspects(self) -> Map<u64, Instant> {
        self.suspect_timers@
    }

    /// When each dead node was declared dead.
    pub closed spec fn dead(self) -> Map<u64, Instant> {
        self.dead_timers@
    }

    /// Validity: no node has two timers of a kind.
    pub closed spec fn wf(self) -> bool {
        self.suspect_timers.wf() && self.dead_timers.wf()
    }

    /// The detector without timers.
    pub fn new() -> (r: Self)
        ensures
            r.wf(),
            r.suspects() == Map::<u64, Instant>::empty(),
            r.dead() == Map::<u64, Instant>::empty(),
    {
        Self { suspect_timers: Assoc::new(), dead_timers: Assoc::new() }
    }

    /// A node chosen at random among those to probe, other nodes that are not dead: of a list that
    /// has each of them once, the one at an index that was chosen among all.
    pub fn tick(&self, members: &MembershipList, self_id: u64) -> (r: Option<u64>)
        requires
            members.wf(),
        ensures
            exists|list: Seq<u64>, k: Option<usize>|
                #![trigger lists_targets(members@, self_id, list), chosen_below(
                    list.len() as usize,
                    k,
                )]
                lists_targets(members@, self_id, list) && chosen_below(list.len() as usize, k) && r
                    == at_choice(list, k),
            match r {
                Some(n) => is_target(*members, self_id, n),
                None => forall|m: Member| #[trigger] members.has(m) ==> !may_probe(m, self_id),
            },
            match r {
                Some(n) => n != self_id && exists|m: Member|
                    #![trigger members.has(m)]
                    members.has(m) && m.node_id == n && m.state != NodeState::Dead,
                None => forall|n: u64|
                    #![trigger members@.dom().contains(n)]
                    members@.dom().contains(n) ==> members@[n].node_id == self_id
                        || members@[n].state == NodeState::Dead,
            },
    {
        let targets = probe_targets(members, self_id);
        let k = chance_below(targets.len());
        proof {
            targets_are_the_others_not_dead(members@, self_id, targets@);
            assert(chosen_below(targets@.len() as usize, k));
            let keys = choose|keys: Seq<u64>| #[trigger]
                targets_of(members@, self_id, keys, targets@);
            match k {
                Some(i) => {
                    let key = keys[i as int];
                    assert(keys.contains(key));
                    assert(members.has(members@[key]));
                    assert(targets@[i as int] == members@[key].node_id);
                },
                None => {
                    assert forall|m: Member| #[trigger] members.has(m) implies !may_probe(
                        m,
                        self_id,
                    ) by {
                        let n = choose|n: u64| #[trigger]
                            members@.dom().contains(n) && members@[n] == m;
                        assert(!keys.contains(n));
                    }
                },
            }
        }
        pick(&targets, k)
    }

    /// A node answered a probe: a suspicion of it is over, and its incarnation goes up by one.
    pub fn record_ack(&mut self, members: &mut MembershipList, node_id: u64)
        requires
            old(self).wf(),
            old(members).wf(),
            old(members)@.dom().contains(node_id) && old(members)@[node_id].state
                == NodeState::Suspect ==> old(members)@[node_id].incarnation < u64::MAX,
        ensures
            final(self).wf(),
            final(members).wf(),
            final(self).suspects() == old(self).suspects().remove(node_id),
            final(self).dead() == old(self).dead(),
            final(members)@ == (if old(members)@.dom().contains(node_id)
                && old(members)@[node_id].state == NodeState::Suspect {
                old(members)@.insert(node_id, acknowledged(old(members)@[node_id]))
            } else {
                old(members)@
            }),
            !final(self).suspects().dom().contains(node_id),
            final(members)@.dom() == old(members)@.dom(),
            old(members)@.dom().contains(node_id) ==> {
                let was = old(members)@[node_id];
                let is = final(members)@[node_id];
                &&& is.state == NodeState::Dead <==> was.state == NodeState::Dead
                &&& is.state != NodeState::Suspect
                &&& was.state == NodeState::Suspect ==> is.incarnation == was.incarnation + 1
                &&& was.state != NodeState::Suspect ==> is == was
            },
    {
        let ghost before = members@;
        let known = match members.get(node_id) {
            Some(m) => m.state == NodeState::Suspect,
            None => false,
        };
        if known {
            match members.get_mut(node_id) {
                Some(m) => {
                    m.state = NodeState::Alive;
                    m.incarnation = m.incarnation + 1;
                },
                None => {},
            }
            assert(members@ =~= before.insert(node_id, acknowledged(before[node_id])));
        }
        self.suspect_timers.remove(&node_id);
        assert(members@.dom() =~= before.dom());
    }

    /// A node did not answer a probe: if it was thought alive it is suspected, and its timer
    /// starts unless it runs.
    pub fn record_nack(&mut self, members: &mut MembershipList, node_id: u64, now: Instant)
        requires
            old(self).wf(),
            old(members).wf(),
        ensures
            final(self).wf(),
            final(members).wf(),
            final(self).dead() == old(self).dead(),
            if old(members)@.dom().contains(node_id) && old(members)@[node_id].state
                == NodeState::Alive {
                &&& final(members)@ == old(members)@.insert(
                    node_id,
                    suspected(old(members)@[node_id], old(members)@[node_id].incarnation),
                )
                &&& final(self).suspects() == (if old(self).suspects().dom().contains(node_id) {
                    old(self).suspects()
                } else {
                    old(self).suspects().insert(node_id, now)
                })
            } else {
                &&& final(members)@ == old(members)@
                &&& final(self).suspects() == old(self).suspects()
            },
            old(members)@.dom().contains(node_id) ==> {
                let was = old(members)@[node_id];
                let is = final(members)@[node_id];
                &&& is.state != NodeState::Alive
                &&& is.state == NodeState::Dead <==> was.state == NodeState::Dead
                &&& is.incarnation == was.incarnation
                &&& was.state == NodeState::Alive ==> final(self).suspects().dom().contains(node_id)
            },
    {
        let ghost before = members@;
        let known = match members.get(node_id) {
            Some(m) => m.state == NodeState::Alive,
            None => false,
        };
        if known {
            match members.get_mut(node_id) {
                Some(m) => {
                    let incarnation: u64 = m.incarnation;
                    m.suspect(incarnation);
                },
                None => {},
            }
            if !self.suspect_timers.contains_key(&node_id) {
                self.suspect_timers.insert(node_id, now);
            }
        }
    }

    /// Declares the nodes dead that have been suspected for too long, and gives them.
    pub fn check_suspect_timeouts(
        &mut self,
        members: &mut MembershipList,
        config: &SwimConfig,
        now: Instant,
    ) -> (r: Vec<u64>)
        requires
            old(self).wf(),
            old(members).wf(),
        ensures
            final(self).wf(),
            final(members).wf(),
            r@.no_duplicates(),
            r@.to_set() == expired(old(self).suspects(), now, config.suspect_timeout),
            final(self).suspects() == old(self).suspects().remove_keys(r@.to_set()),
            final(self).dead() == started(old(self).dead(), r@.to_set(), now),
            final(members)@ == killed(old(members)@, r@.to_set()),
            forall|n: u64|
                #![trigger r@.contains(n)]
                r@.contains(n) <==> old(self).suspects().dom().contains(n)
                    && (now@ >= old(self).suspects()[n]@ + config.suspect_timeout@
                    || config.suspect_timeout@ == 0),
            forall|n: u64|
                #![trigger r@.contains(n)]
                r@.contains(n) ==> {
                    &&& !final(self).suspects().dom().contains(n)
                    &&& final(self).dead().dom().contains(n)
                    &&& final(self).dead()[n] == now
                    &&& final(members)@.dom().contains(n) ==> final(members)@[n].state
                        == NodeState::Dead
                },
            final(members)@.dom() == old(members)@.dom(),
            forall|n: u64|
                old(members)@.dom().contains(n) && !(#[trigger] r@.contains(n))
                    ==> final(members)@[n] == old(members)@[n],
    {
        let nodes = expired_nodes(&self.suspect_timers, now, config.suspect_timeout);
        let ghost suspects0 = self.suspects();
        let ghost dead0 = self.dead();
        let ghost members0 = members@;
        let mut i: usize = 0;
        while i < nodes.len()
            invariant
                self.wf(),
                members.wf(),
                i <= nodes@.len(),
                self.suspects() =~= suspects0.remove_keys(nodes@.take(i as int).to_set()),
                self.dead() =~= started(dead0, nodes@.take(i as int).to_set(), now),
                members@ =~= killed(members0, nodes@.take(i as int).to_set()),
            decreases nodes@.len() - i,
        {
            let node_id: u64 = nodes[i];
            let ghost seen = nodes@.take(i as int);
            let ghost next = nodes@.take(i + 1);
            proof {
                assert(next =~= seen.push(node_id));
                assert forall|x: u64|
                    #![trigger next.contains(x)]
                    next.contains(x) <==> (seen.contains(x) || x == node_id) by {
                    contains_pushed(seen, node_id, x);
                }
            }
            self.suspect_timers.remove(&node_id);
            members.mark_dead(node_id);
            self.dead_timers.insert(node_id, now);
            i = i + 1;
        }
        proof {
            assert(nodes@.take(i as int) =~= nodes@);
            assert(self.suspects() =~= suspects0.remove_keys(nodes@.to_set()));
            assert(members@.dom() =~= members0.dom());
            assert forall|n: u64| #[trigger] nodes@.contains(n) <==> suspects0.dom().contains(n) && (
            now@ >= suspects0[n]@ + config.suspect_timeout@ || config.suspect_timeout@ == 0) by {
                assert(nodes@.contains(n) <==> nodes@.to_set().contains(n));
                time_is_up_after_the_span(suspects0, now, config.suspect_timeout, n);
            }
            assert forall|n: u64| #[trigger] nodes@.contains(n) <==> nodes@.to_set().contains(n) by {}
        }
        nodes
    }

    /// Removes the nodes that have been dead for long enough, and gives them.
    pub fn remove_expired_dead(
        &mut self,
        members: &mut MembershipList,
        config: &SwimConfig,
        now: Instant,
    ) -> (r: Vec<u64>)
        requires
            old(self).wf(),
            old(members).wf(),
        ensures
            final(self).wf(),
            final(members).wf(),
            r@.no_duplicates(),
            r@.to_set() == dead_among(
                old(members)@,
                expired(old(self).dead(), now, config.dead_removal_delay),
            ),
            final(self).suspects() == old(self).suspects(),
            final(self).dead() == old(self).dead().remove_keys(
                expired(old(self).dead(), now, config.dead_removal_delay),
            ),
            final(members)@ == old(members)@.remove_keys(r@.to_set()),
            forall|n: u64|
                #![trigger r@.contains(n)]
                r@.contains(n) <==> {
                    &&& old(members)@.dom().contains(n)
                    &&& old(members)@[n].state == NodeState::Dead
                    &&& old(self).dead().dom().contains(n)
                    &&& now@ >= old(self).dead()[n]@ + config.dead_removal_delay@
                        || config.dead_removal_delay@ == 0
                },
            forall|n: u64|
                #![trigger final(members)@.dom().contains(n)]
                final(members)@.dom().contains(n) <==> old(members)@.dom().contains(n)
                    && !r@.contains(n),
            forall|n: u64|
                #![trigger final(members)@.dom().contains(n)]
                final(members)@.dom().contains(n) ==> final(members)@[n] == old(members)@[n],
            forall|n: u64| #[trigger] r@.contains(n) ==> !final(self).dead().dom().contains(n),
    {
        let nodes = expired_nodes(&self.dead_timers, now, config.dead_removal_delay);
        let ghost dead0 = self.dead();
        let ghost members0 = members@;
        let mut removed: Vec<u64> = Vec::new();
        let mut i: usize = 0;
        while i < nodes.len()
            invariant
                self.wf(),
                members.wf(),
                self.suspects() == old(self).suspects(),
                i <= nodes@.len(),
                nodes@.no_duplicates(),
                members@ == members0,
                self.dead() =~= dead0.remove_keys(nodes@.take(i as int).to_set()),
                removed@.no_duplicates(),
                forall|x: u64|
                    #![trigger removed@.contains(x)]
                    removed@.contains(x) <==> (nodes@.take(i as int).contains(x)
                        && members0.dom().contains(x) && members0[x].state == NodeState::Dead),
            decreases nodes@.len() - i,
        {
            let node_id: u64 = nodes[i];
            let ghost seen = nodes@.take(i as int);
            let ghost next = nodes@.take(i + 1);
            let ghost prev = removed@;
            proof {
                assert(next =~= seen.push(node_id));
                assert forall|x: u64|
                    #![trigger next.contains(x)]
                    next.contains(x) <==> (seen.contains(x) || x == node_id) by {
                    contains_pushed(seen, node_id, x);
                }
                assert(!seen.contains(node_id)) by {
                    if seen.contains(node_id) {
                        let j = choose|j: int| 0 <= j < seen.len() && seen[j] == node_id;
                        assert(nodes@[j] == nodes@[i as int]);
                    }
                }
            }
            self.dead_timers.remove(&node_id);
            let is_dead = match members.get(node_id) {
                Some(m) => m.state == NodeState::Dead,
                None => false,
            };
            if is_dead {
                assert(!removed@.contains(node_id));
                removed.push(node_id);
                proof {
                    assert(removed@.no_duplicates());
                    assert forall|x: u64|
                        #![trigger removed@.contains(x)]
                        removed@.contains(x) <==> (next.contains(x) && members0.dom().contains(x)
                            && members0[x].state == NodeState::Dead) by {
                        contains_pushed(prev, node_id, x);
                    }
                }
            }
            i = i + 1;
        }
        let mut k: usize = 0;
        while k < removed.len()
            invariant
                members.wf(),
                k <= removed@.len(),
                members@ =~= members0.remove_keys(removed@.take(k as int).to_set()),
            decreases removed@.len() - k,
        {
            proof {
                let seen = removed@.take(k as int);
                let next = removed@.take(k + 1);
                assert(next =~= seen.push(removed@[k as int]));
                assert forall|x: u64|
                    #![trigger next.contains(x)]
                    next.contains(x) <==> (seen.contains(x) || x == removed@[k as int]) by {
                    contains_pushed(seen, removed@[k as int], x);
                }
            }
            members.remove_node(removed[k]);
            k = k + 1;
        }
        proof {
            assert(nodes@.take(i as int) =~= nodes@);
            assert(removed@.take(k as int) =~= removed@);
            assert(self.dead() =~= dead0.remove_keys(nodes@.to_set()));
            assert(members@ =~= members0.remove_keys(removed@.to_set()));
            assert(removed@.to_set() =~= dead_among(members0, nodes@.to_set()));
            assert forall|n: u64| #[trigger] removed@.contains(n) <==> {
                &&& members0.dom().contains(n)
                &&& members0[n].state == NodeState::Dead
                &&& dead0.dom().contains(n)
                &&& now@ >= dead0[n]@ + config.dead_removal_delay@ || config.dead_removal_delay@
                    == 0
            } by {
                assert(nodes@.contains(n) <==> nodes@.to_set().contains(n));
                time_is_up_after_the_span(dead0, now, config.dead_removal_delay, n);
            }
            assert forall|n: u64| #[trigger] removed@.contains(n) <==> removed@.to_set().contains(
                n,
            ) by {}
            assert forall|n: u64| #[trigger]
                removed@.contains(n) implies !self.dead().dom().contains(n) by {
                assert(nodes@.to_set().contains(n));
            }
        }
        removed
    }

    /// When each suspected node was first suspected.
    pub fn suspect_timers(&self) -> (r: Vec<(u64, Instant)>)
        requires
            self.wf(),
        ensures
            r@.len() == self.suspects().dom().len(),
            forall|i: int|
                0 <= i < r@.len() ==> self.suspects().dom().contains((#[trigger] r@[i]).0)
                    && self.suspects()[r@[i].0] == r@[i].1,
            forall|n: u64|
                #![trigger self.suspects().dom().contains(n)]
                self.suspects().dom().contains(n) ==> exists|i: int|
                    0 <= i < r@.len() && (#[trigger] r@[i]).0 == n,
    {
        let n: usize = self.suspect_timers.len();
        let ghost items = self.suspect_timers.items();
        let mut out: Vec<(u64, Instant)> = Vec::new();
        let mut i: usize = 0;
        while i < n
            invariant
                self.wf(),
                items == self.suspect_timers.items(),
                n == items.len(),
                i <= n,
                out@.len() == i,
                forall|j: int| 0 <= j < i ==> #[trigger] out@[j] == items[j],
            decreases n - i,
        {
            let (id, at) = self.suspect_timers.entry(i);
            out.push((*id, *at));
            i = i + 1;
        }
        proof {
            assert forall|j: int| 0 <= j < out@.len() implies self.suspects().dom().contains(
                (#[trigger] out@[j]).0,
            ) && self.suspects()[out@[j].0] == out@[j].1 by {
                entry_in_map(items, j);
            }
            assert forall|x: u64| #[trigger] self.suspects().dom().contains(x) implies exists|j: int|
                0 <= j < out@.len() && (#[trigger] out@[j]).0 == x by {
                let j = choose|j: int| 0 <= j < items.len() && (#[trigger] items[j]).0.key() == x;
                assert(out@[j].0 == x);
            }
        }
        out
    }
}

/// A timer has run out once the span has gone by since it was started.
pub proof fn time_is_up_after_the_span(
    timers: Map<u64, Instant>,
    now: Instant,
    limit: Duration,
    node: u64,
)
    ensures
        expired(timers, now, limit).contains(node) <==> timers.dom().contains(node) && (now@
            >= timers[node]@ + limit@ || limit@ == 0),
{
}

/// A node that is declared dead stays in the list until the delay has gone by since, and is
/// removed from then on.
pub proof fn the_dead_are_removed_after_the_delay(
    dead: Map<u64, Instant>,
    nodes: Set<u64>,
    members: Map<u64, Member>,
    at: Instant,
    now: Instant,
    delay: Duration,
    node: u64,
)
    requires
        nodes.contains(node),
        members.dom().contains(node),
        delay@ > 0,
    ensures
        dead_among(killed(members, nodes), expired(started(dead, nodes, at), now, delay)).contains(
            node,
        ) <==> now@ >= at@ + delay@,
{
}

/// What is not dead is never removed, and what is not of the nodes is not declared dead.
pub proof fn only_the_dead_are_removed(
    members: Map<u64, Member>,
    nodes: Set<u64>,
    node: u64,
)
    requires
        members.dom().contains(node),
        members[node].state != NodeState::Dead,
    ensures
        !dead_among(members, nodes).contains(node),
        !nodes.contains(node) ==> killed(members, nodes)[node] == members[node],
        nodes.contains(node) ==> killed(members, nodes)[node].state == NodeState::Dead,
        killed(members, nodes).dom() == members.dom(),
{
    assert(killed(members, nodes).dom() =~= members.dom());
}

/// A suspected member that answered is alive again in its next incarnation, and otherwise what
/// it was; so word of the suspicion that is over does not count any more.
pub proof fn answering_refutes_the_suspicion(m: Member)
    requires
        m.state == NodeState::Suspect,
        m.incarnation < u64::MAX,
    ensures
        acknowledged(m).state == NodeState::Alive,
        acknowledged(m).incarnation == m.incarnation + 1,
        acknowledged(m).node_id == m.node_id,
        acknowledged(m).addr == m.addr,
        acknowledged(m).cert_hash == m.cert_hash,
        suspected(acknowledged(m), m.incarnation) == acknowledged(m),
{
}

/// A suspected member that answered.
pub open spec fn acknowledged(m: Member) -> Member {
    Member { state: NodeState::Alive, incarnation: (m.incarnation + 1) as u64, ..m }
}

/// A node that was suspected and did not answer is dead once the time is up, and stays so
/// whatever is said of it later.
pub proof fn silent_suspects_die(
    suspects: Map<u64, Instant>,
    members: Map<u64, Member>,
    node: u64,
    now: Instant,
    limit: Duration,
    incarnation: u64,
)
    requires
        suspects.dom().contains(node),
        members.dom().contains(node),
        elapsed(suspects[node]@, now@) >= limit@,
    ensures
        ({
            let after = killed(members, expired(suspects, now, limit));
            &&& after.dom().contains(node)
            &&& after[node].state == NodeState::Dead
            &&& crate::cluster::swim::member::revived(after[node], incarnation) == after[node]
        }),
{
}

/// A node that answered in time is not declared dead: without a timer it does not expire.
pub proof fn answering_saves(
    suspects: Map<u64, Instant>,
    members: Map<u64, Member>,
    node: u64,
    now: Instant,
    limit: Duration,
)
    requires
        members.dom().contains(node),
    ensures
        killed(members, expired(suspects.remove(node), now, limit))[node] == members[node],
{
}

impl Default for FailureDetector {
    fn default() -> (r: Self)
        ensures
            r.wf(),
            r.suspects() == Map::<u64, Instant>::empty(),
            r.dead() == Map::<u64, Instant>::empty(),
    {
        Self::new()
    }
}

} // verus!
