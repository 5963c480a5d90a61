//! The members of a cluster.
use crate::assoc::{entry_in_map, Assoc, AssocKey};
use crate::cluster::addr::SocketAddr;
use vstd::prelude::*;

verus! {

/// What is thought of a node.
#[derive(Debug, Clone, Copy, PartialEq, Eq, Structural)]
pub enum NodeState {
    Alive,
    Suspect,
    Dead,
}

/// A node as another knows it.
#[derive(Debug, Clone, Copy)]
pub struct Member {
    pub node_id: u64,
    pub addr: SocketAddr,
    pub state: NodeState,
    pub incarnation: u64,
    pub cert_hash: Option<[u8; 32]>,
}

/// The member after it was said to be suspect in an incarnation: a dead member stays dead, and
/// word of an older incarnation does not count.
pub open spec fn suspected(m: Member, incarnation: u64) -> Member {
    if m.state != NodeState::Dead && incarnation >= m.incarnation {
        Member { state: NodeState::Suspect, incarnation, ..m }
    } else {
        m
    }
}

/// The member after it was said to be alive in an incarnation: a dead member stays dead, and only
/// word of a newer incarnation counts.
pub open spec fn revived(m: Member, incarnation: u64) -> Member {
    if m.state != NodeState::Dead && incarnation > m.incarnation {
        Member { state: NodeState::Alive, incarnation, ..m }
    } else {
        m
    }
}

/// The member, dead.
pub open spec fn died(m: Member) -> Member {
    Member { state: NodeState::Dead, ..m }
}

impl Member {
    /// A member that is alive, in its first incarnation.
    pub fn new(node_id: u64, addr: SocketAddr) -> (r: Self)
        ensures
            r == (Member {
                node_id,
                addr,
                state: NodeState::Alive,
                incarnation: 0,
                cert_hash: None,
            }),
    {
        Self { node_id, addr, state: NodeState::Alive, incarnation: 0, cert_hash: None }
    }

    /// Takes word that the member is suspect.
    pub fn suspect(&mut self, incarnation: u64)
        ensures
            *final(self) == suspected(*old(self), incarnation),
            old(self).state != NodeState::Dead && incarnation >= old(self).incarnation
                ==> final(self).state == NodeState::Suspect && final(self).incarnation
                == incarnation,
            old(self).state == NodeState::Dead || incarnation < old(self).incarnation
                ==> *final(self) == *old(self),
    {
        if self.state == NodeState::Dead {
            return;
        }
        if incarnation >= self.incarnation {
            self.state = NodeState::Suspect;
            self.incarnation = incarnation;
        }
    }

    /// Takes word that the member is alive.
    pub fn alive(&mut self, incarnation: u64)
        ensures
            *final(self) == revived(*old(self), incarnation),
            old(self).state != NodeState::Dead && incarnation > old(self).incarnation
                ==> final(self).state == NodeState::Alive && final(self).incarnation == incarnation,
            old(self).state == NodeState::Dead || incarnation <= old(self).incarnation
                ==> *final(self) == *old(self),
    {
        if self.state == NodeState::Dead {
            return;
        }
        if incarnation > self.incarnation {
            self.state = NodeState::Alive;
            self.incarnation = incarnation;
        }
    }

    /// Takes word that the member is dead.
    pub fn dead(&mut self)
        ensures
            *final(self) == died(*old(self)),
            final(self).state == NodeState::Dead,
            final(self).incarnation == old(self).incarnation,
    {
        self.state = NodeState::Dead;
    }
}

/// The dead do not return: neither word of suspicion nor of life changes a dead member.
pub proof fn the_dead_stay_dead(m: Member, incarnation: u64)
    requires
        m.state == NodeState::Dead,
    ensures
        suspected(m, incarnation) == m,
        revived(m, incarnation) == m,
        died(m) == m,
{
}

/// Incarnations never go back, and what a member is but for state and incarnation stays.
pub proof fn incarnations_only_grow(m: Member, incarnation: u64)
    ensures
        suspected(m, incarnation).incarnation >= m.incarnation,
        revived(m, incarnation).incarnation >= m.incarnation,
        died(m).incarnation == m.incarnation,
        suspected(m, incarnation).node_id == m.node_id,
        revived(m, incarnation).node_id == m.node_id,
        suspected(m, incarnation).addr == m.addr,
        revived(m, incarnation).addr == m.addr,
{
}

/// A suspicion can be refuted only in a newer incarnation, and is confirmed in the same one.
pub proof fn suspicion_needs_a_newer_incarnation(m: Member, incarnation: u64)
    requires
        m.state != NodeState::Dead,
    ensures
        revived(suspected(m, m.incarnation), incarnation).state == NodeState::Alive <==> incarnation
            > m.incarnation,
        suspected(m, m.incarnation).state == NodeState::Suspect,
{
}

/// Word of a member that is not dead leaves it in the newest incarnation that it was ever said to
/// be in, and alive or suspect as that word has it: of words of life and of suspicion in one
/// incarnation, suspicion stands, whichever came first.
pub proof fn newest_word_stands(m: Member, incarnation: u64)
    requires
        m.state != NodeState::Dead,
    ensures
        suspected(m, incarnation).incarnation == (if incarnation > m.incarnation {
            incarnation
        } else {
            m.incarnation
        }),
        revived(m, incarnation).incarnation == (if incarnation > m.incarnation {
            incarnation
        } else {
            m.incarnation
        }),
        incarnation > m.incarnation ==> revived(m, incarnation).state == NodeState::Alive,
        incarnation > m.incarnation ==> suspected(m, incarnation).state == NodeState::Suspect,
        incarnation < m.incarnation ==> suspected(m, incarnation).state == m.state,
        incarnation <= m.incarnation ==> revived(m, incarnation).state == m.state,
        incarnation > m.incarnation ==> revived(suspected(m, incarnation), incarnation)
            == suspected(revived(m, incarnation), incarnation),
{
}

/// Whatever is said of a member, it stays the member of its node, address and certificate; and
/// once it is said to be dead, it is.
pub proof fn word_changes_state_only(m: Member, incarnation: u64)
    ensures
        died(m).state == NodeState::Dead,
        died(m).node_id == m.node_id,
        died(m).addr == m.addr,
        died(m).cert_hash == m.cert_hash,
        suspected(m, incarnation).cert_hash == m.cert_hash,
        revived(m, incarnation).cert_hash == m.cert_hash,
        suspected(m, incarnation).state == NodeState::Dead <==> m.state == NodeState::Dead,
        revived(m, incarnation).state == NodeState::Dead <==> m.state == NodeState::Dead,
{
}

/// `rand`'s `IteratorRandom::choose` on the numbers below `n`, with the thread's generator.
/// Claimed: there is a choice exactly if there is a number to choose, and it is one of them.
/// Which one is random.
#[verifier::external_body]
fn choose_below(n: usize) -> (r: Option<usize>)
    ensures
        (r is None) == (n == 0),
        r is Some ==> r->0 < n,
{
    rand::seq::IteratorRandom::choose(0..n, &mut rand::rng())
}

/// Whether `k` was chosen at random among the numbers below `n`.
pub closed spec fn chosen_below(n: usize, k: Option<usize>) -> bool {
    call_ensures(choose_below, (n,), k)
}

/// A number chosen at random among those below `n`, if there are any.
pub(crate) fn chance_below(n: usize) -> (r: Option<usize>)
    ensures
        chosen_below(n, r),
        (r is None) == (n == 0),
        r is Some ==> r->0 < n,
{
    choose_below(n)
}

/// The item of a list that a choice of an index stands for.
pub open spec fn at_choice<T>(list: Seq<T>, k: Option<usize>) -> Option<T> {
    match k {
        Some(i) => Some(list[i as int]),
        None => None,
    }
}

/// The item of a list that a choice of an index stands for.
pub fn pick<T: Copy>(list: &Vec<T>, k: Option<usize>) -> (r: Option<T>)
    requires
        k matches Some(i) ==> i < list@.len(),
    ensures
        r == at_choice(list@, k),
{
    match k {
        Some(i) => Some(list[i]),
        None => None,
    }
}

/// The members of a cluster, by node.
pub struct MembershipList {
    members: Assoc<u64, Member>,
}

/// The members that are in the state.
pub open spec fn in_state(members: Map<u64, Member>, state: NodeState) -> Set<u64> {
    members.dom().filter(|n: u64| members[n].state == state)
}

/// Whether a list has every member that is alive and not of the node, each once.
pub open spec fn lists_candidates(
    members: Map<u64, Member>,
    exclude: u64,
    list: Seq<Member>,
) -> bool {
    exists|nodes: Seq<u64>| #[trigger]
        members_of(members, nodes, list) && forall|n: u64|
            members.dom().contains(n) && is_candidate(members[n], exclude)
                <==> #[trigger] nodes.contains(n)
}

/// Whether a list has every member, each once.
pub open spec fn lists_members(members: Map<u64, Member>, list: Seq<Member>) -> bool {
    exists|nodes: Seq<u64>| #[trigger]
        members_of(members, nodes, list) && forall|n: u64|
            members.dom().contains(n) <==> #[trigger] nodes.contains(n)
}

/// Whether a list has the members of the nodes, in the nodes' order, and each node once.
pub open spec fn members_of(members: Map<u64, Member>, nodes: Seq<u64>, list: Seq<Member>) -> bool {
    &&& nodes.no_duplicates()
    &&& nodes.len() == list.len()
    &&& forall|i: int|
        0 <= i < nodes.len() ==> members.dom().contains(#[trigger] nodes[i]) && list[i]
            == members[nodes[i]]
}

/// The candidates are the other members that are alive: each of them is in the list, and nothing
/// else is.
pub proof fn candidates_are_the_others_alive(
    members: Map<u64, Member>,
    exclude: u64,
    list: Seq<Member>,
)
    requires
        lists_candidates(members, exclude, list),
    ensures
        forall|k: int|
            0 <= k < list.len() ==> (#[trigger] list[k]).state == NodeState::Alive
                && list[k].node_id != exclude,
        forall|n: u64|
            #![trigger members.dom().contains(n)]
            members.dom().contains(n) && members[n].state == NodeState::Alive && members[n].node_id
                != exclude ==> list.contains(members[n]),
{
    let nodes = choose|nodes: Seq<u64>| #[trigger]
        members_of(members, nodes, list) && forall|n: u64|
            members.dom().contains(n) && is_candidate(members[n], exclude)
                <==> #[trigger] nodes.contains(n);
    assert forall|k: int| 0 <= k < list.len() implies (#[trigger] list[k]).state
        == NodeState::Alive && list[k].node_id != exclude by {
        assert(nodes.contains(nodes[k]));
    }
    assert forall|n: u64| #[trigger]
        members.dom().contains(n) && members[n].state == NodeState::Alive && members[n].node_id
            != exclude implies list.contains(members[n]) by {
        assert(nodes.contains(n));
        let k = choose|k: int| 0 <= k < nodes.len() && nodes[k] == n;
        assert(list[k] == members[nodes[k]]);
    }
}

/// Every member is in one state: the alive, the suspect and the dead are all there are.
pub proof fn every_member_is_in_one_state(members: Map<u64, Member>)
    requires
        members.dom().finite(),
    ensures
        in_state(members, NodeState::Alive).len() + in_state(members, NodeState::Suspect).len()
            + in_state(members, NodeState::Dead).len() == members.dom().len(),
        in_state(members, NodeState::Alive).disjoint(in_state(members, NodeState::Suspect)),
        in_state(members, NodeState::Alive).disjoint(in_state(members, NodeState::Dead)),
        in_state(members, NodeState::Suspect).disjoint(in_state(members, NodeState::Dead)),
        forall|n: u64, s: NodeState|
            #![trigger in_state(members, s).contains(n)]
            in_state(members, s).contains(n) ==> members[n].state == s,
{
    let a = in_state(members, NodeState::Alive);
    let s = in_state(members, NodeState::Suspect);
    let d = in_state(members, NodeState::Dead);
    assert(members.dom() =~= a.union(s).union(d));
    vstd::set_lib::lemma_set_disjoint_lens(a, s);
    vstd::set_lib::lemma_set_disjoint_lens(a.union(s), d);
}

/// Whether a member is alive, and not of the node.
pub open spec fn is_candidate(m: Member, exclude: u64) -> bool {
    m.state == NodeState::Alive && m.node_id != exclude
}

impl MembershipList {
    pub closed spec fn view(self) -> Map<u64, Member> {
        self.members@
    }

    /// Validity: no node is listed twice.
    pub closed spec fn wf(self) -> bool {
        self.members.wf()
    }

    /// The list without members.
    pub fn new() -> (r: Self)
        ensures
            r.wf(),
            r@ == Map::<u64, Member>::empty(),
    {
        Self { members: Assoc::new() }
    }

    /// Adds a member, in place of one with the same node.
    pub fn add(&mut self, member: Member)
        requires
            old(self).wf(),
        ensures
            final(self).wf(),
            final(self)@ == old(self)@.insert(member.node_id, member),
    {
        self.members.insert(member.node_id, member);
    }

    /// The member of a node.
    pub fn get(&self, node_id: u64) -> (r: Option<&Member>)
        requires
            self.wf(),
        ensures
            match r {
                Some(m) => self@.dom().contains(node_id) && *m == self@[node_id],
                None => !self@.dom().contains(node_id),
            },
    {
        self.members.get(&node_id)
    }

    /// The member of a node, to be changed.
    pub fn get_mut(&mut self, node_id: u64) -> (r: Option<&mut Member>)
        requires
            old(self).wf(),
        ensures
            final(self).wf(),
            match r {
                Some(m) => old(self)@.dom().contains(node_id) && *m == old(self)@[node_id]
                    && final(self)@ == old(self)@.insert(node_id, *final(m)),
                None => !old(self)@.dom().contains(node_id) && final(self)@ == old(self)@,
            },
    {
        self.members.get_mut(&node_id)
    }

    /// Declares a member dead, if there is one.
    pub fn mark_dead(&mut self, node_id: u64)
        requires
            old(self).wf(),
        ensures
            final(self).wf(),
            final(self)@ == (if old(self)@.dom().contains(node_id) {
                old(self)@.insert(node_id, died(old(self)@[node_id]))
            } else {
                old(self)@
            }),
            final(self)@.dom() == old(self)@.dom(),
            old(self)@.dom().contains(node_id) ==> final(self)@[node_id].state == NodeState::Dead,
    {
        match self.members.get_mut(&node_id) {
            Some(m) => {
                m.dead();
            },
            None => {},
        }
        assert(self@.dom() =~= old(self)@.dom());
    }

    /// Removes the dead members.
    pub fn remove_dead(&mut self)
        requires
            old(self).wf(),
        ensures
            final(self).wf(),
            final(self)@ == old(self)@.remove_keys(in_state(old(self)@, NodeState::Dead)),
            forall|n: u64|
                #![trigger final(self)@.dom().contains(n)]
                final(self)@.dom().contains(n) <==> old(self)@.dom().contains(n)
                    && old(self)@[n].state != NodeState::Dead,
            forall|n: u64|
                #![trigger final(self)@.dom().contains(n)]
                final(self)@.dom().contains(n) ==> final(self)@[n] == old(self)@[n],
    {
        let ghost before = self@;
        let mut i: usize = 0;
        let mut n: usize = self.members.len();
        while i < n
            invariant
                self.wf(),
                i <= n,
                n == self.members.items().len(),
                self@.submap_of(before),
                forall|x: u64|
                    #![trigger before.dom().contains(x)]
                    before.dom().contains(x) && before[x].state != NodeState::Dead
                        ==> self@.dom().contains(x),
                forall|j: int|
                    0 <= j < i ==> (#[trigger] self.members.items()[j]).1.state != NodeState::Dead,
            decreases n - i,
        {
            let (_, m) = self.members.entry(i);
            if m.state == NodeState::Dead {
                let ghost prev = *self;
                self.members.remove_at(i);
                n = n - 1;
                proof {
                    assert forall|x: u64|
                        #![trigger before.dom().contains(x)]
                        before.dom().contains(x) && before[x].state
                            != NodeState::Dead implies self@.dom().contains(x) by {
                        assert(prev@.dom().contains(x));
                        assert(prev@[x] == before[x]);
                    }
                    assert forall|j: int| 0 <= j < i implies (
                    #[trigger] self.members.items()[j]).1.state != NodeState::Dead by {
                        assert(self.members.items()[j] == prev.members.items()[j]);
                    }
                }
            } else {
                i = i + 1;
            }
        }
        proof {
            let items = self.members.items();
            assert forall|x: u64| #[trigger] self@.dom().contains(x) implies self@[x].state
                != NodeState::Dead by {
                let j = choose|j: int| 0 <= j < items.len() && (#[trigger] items[j]).0.key() == x;
                entry_in_map(items, j);
            }
            assert(self@ =~= before.remove_keys(in_state(before, NodeState::Dead)));
        }
    }

    /// Removes the member of a node.
    pub fn remove_node(&mut self, node_id: u64)
        requires
            old(self).wf(),
        ensures
            final(self).wf(),
            final(self)@ == old(self)@.remove(node_id),
    {
        self.members.remove(&node_id);
    }

    /// The number of members that are alive.
    pub fn alive_count(&self) -> (r: usize)
        requires
            self.wf(),
        ensures
            r == in_state(self@, NodeState::Alive).len(),
    {
        let n: usize = self.members.len();
        let mut count: usize = 0;
        let mut i: usize = 0;
        let ghost items = self.members.items();
        let ghost mut seen: Set<u64> = Set::empty();
        while i < n
            invariant
                self.wf(),
                items == self.members.items(),
                n == items.len(),
                i <= n,
                count <= i,
                seen.finite(),
                count == seen.len(),
                forall|p: u64|
                    #![trigger seen.contains(p)]
                    seen.contains(p) <==> exists|j: int|
                        0 <= j < i && (#[trigger] items[j]).0 == p && items[j].1.state
                            == NodeState::Alive,
            decreases n - i,
        {
            let (id, m) = self.members.entry(i);
            if m.state == NodeState::Alive {
                proof {
                    assert(!seen.contains(*id)) by {
                        if seen.contains(*id) {
                            let j = choose|j: int|
                                0 <= j < i && (#[trigger] items[j]).0 == *id && items[j].1.state
                                    == NodeState::Alive;
                            assert(items[j].0.key() != items[i as int].0.key());
                        }
                    }
                    let prev = seen;
                    seen = seen.insert(*id);
                    assert forall|p: u64|
                        #![trigger seen.contains(p)]
                        seen.contains(p) <==> exists|j: int|
                            0 <= j < i + 1 && (#[trigger] items[j]).0 == p && items[j].1.state
                                == NodeState::Alive by {
                        if prev.contains(p) {
                            let j = choose|j: int|
                                0 <= j < i && (#[trigger] items[j]).0 == p && items[j].1.state
                                    == NodeState::Alive;
                            assert(items[j].0 == p);
                        }
                        assert(items[i as int].0 == *id);
                    }
                }
                count = count + 1;
            }
            i = i + 1;
        }
        proof {
            assert forall|p: u64|
                seen.contains(p) <==> in_state(self@, NodeState::Alive).contains(p) by {
                if seen.contains(p) {
                    let j = choose|j: int|
                        0 <= j < i && (#[trigger] items[j]).0 == p && items[j].1.state
                            == NodeState::Alive;
                    entry_in_map(items, j);
                }
                if in_state(self@, NodeState::Alive).contains(p) {
                    let j = choose|j: int|
                        0 <= j < items.len() && (#[trigger] items[j]).0.key() == p;
                    entry_in_map(items, j);
                    assert(items[j].0 == p && items[j].1.state == NodeState::Alive);
                }
            }
            assert(seen =~= in_state(self@, NodeState::Alive));
        }
        count
    }

    /// The members that are alive and not of the node, each once.
    pub fn alive_members(&self, exclude: u64) -> (r: Vec<Member>)
        requires
            self.wf(),
        ensures
            lists_candidates(self@, exclude, r@),
            forall|k: int|
                0 <= k < r@.len() ==> (#[trigger] r@[k]).state == NodeState::Alive
                    && r@[k].node_id != exclude && self.has(r@[k]),
            forall|n: u64|
                #![trigger self@.dom().contains(n)]
                self@.dom().contains(n) && self@[n].state == NodeState::Alive && self@[n].node_id
                    != exclude ==> r@.contains(self@[n]),
    {
        let n: usize = self.members.len();
        let ghost items = self.members.items();
        let ghost mut nodes: Seq<u64> = Seq::empty();
        let mut out: Vec<Member> = Vec::new();
        let mut i: usize = 0;
        while i < n
            invariant
                self.wf(),
                items == self.members.items(),
                n == items.len(),
                i <= n,
                members_of(self@, nodes, out@),
                forall|k: int|
                    0 <= k < nodes.len() ==> exists|j: int|
                        0 <= j < i && (#[trigger] items[j]).0 == #[trigger] nodes[k]
                            && is_candidate(items[j].1, exclude),
                forall|j: int|
                    0 <= j < i && is_candidate((#[trigger] items[j]).1, exclude) ==> nodes.contains(
                        items[j].0,
                    ),
            decreases n - i,
        {
            let (node, m) = self.members.entry(i);
            let ghost prev = nodes;
            if m.state == NodeState::Alive && m.node_id != exclude {
                proof {
                    nodes = nodes.push(*node);
                    assert(nodes[prev.len() as int] == *node);
                    assert forall|k: int| 0 <= k < prev.len() implies prev[k] != *node by {
                        let j = choose|j: int|
                            0 <= j < i && (#[trigger] items[j]).0 == prev[k] && is_candidate(
                                items[j].1,
                                exclude,
                            );
                        assert(items[j].0.key() != items[i as int].0.key());
                    }
                    assert forall|j: int|
                        0 <= j < i && is_candidate(
                            (#[trigger] items[j]).1,
                            exclude,
                        ) implies nodes.contains(items[j].0) by {
                        let k = choose|k: int| 0 <= k < prev.len() && prev[k] == items[j].0;
                        assert(nodes[k] == items[j].0);
                    }
                    assert(items[i as int].0 == nodes[prev.len() as int]);
                }
                out.push(*m);
            }
            i = i + 1;
        }
        proof {
            assert forall|x: u64|
                self@.dom().contains(x) && is_candidate(self@[x], exclude)
                    <==> #[trigger] nodes.contains(x) by {
                if self@.dom().contains(x) && is_candidate(self@[x], exclude) {
                    let j = choose|j: int|
                        0 <= j < items.len() && (#[trigger] items[j]).0.key() == x;
                    entry_in_map(items, j);
                }
                if nodes.contains(x) {
                    let k = choose|k: int| 0 <= k < nodes.len() && nodes[k] == x;
                    let j = choose|j: int|
                        0 <= j < i && (#[trigger] items[j]).0 == nodes[k] && is_candidate(
                            items[j].1,
                            exclude,
                        );
                    entry_in_map(items, j);
                }
            }
            assert(lists_candidates(self@, exclude, out@));
            candidates_are_the_others_alive(self@, exclude, out@);
            assert forall|k: int| 0 <= k < out@.len() implies self.has(#[trigger] out@[k]) by {
                assert(self@.dom().contains(nodes[k]) && self@[nodes[k]] == out@[k]);
            }
        }
        out
    }

    /// Whether the member is in the list.
    pub open spec fn has(self, m: Member) -> bool {
        exists|n: u64| #[trigger] self@.dom().contains(n) && self@[n] == m
    }

    /// A member chosen at random among those that are alive and not of the node: of a list that has
    /// each of them once, the one at an index that was chosen among all.
    pub fn random_alive_member(&self, exclude: u64) -> (r: Option<Member>)
        requires
            self.wf(),
        ensures
            exists|list: Seq<Member>, k: Option<usize>|
                #![trigger lists_candidates(self@, exclude, list), chosen_below(
                    list.len() as usize,
                    k,
                )]
                lists_candidates(self@, exclude, list) && chosen_below(list.len() as usize, k) && r
                    == at_choice(list, k),
            match r {
                Some(m) => self.has(m) && is_candidate(m, exclude),
                None => forall|n: u64|
                    #![trigger self@.dom().contains(n)]
                    self@.dom().contains(n) ==> !is_candidate(self@[n], exclude),
            },
            match r {
                Some(m) => self.has(m) && m.state == NodeState::Alive && m.node_id != exclude,
                None => forall|n: u64|
                    #![trigger self@.dom().contains(n)]
                    self@.dom().contains(n) ==> self@[n].state != NodeState::Alive
                        || self@[n].node_id == exclude,
            },
    {
        let candidates = self.alive_members(exclude);
        let ghost nodes = choose|nodes: Seq<u64>| #[trigger]
            members_of(self@, nodes, candidates@) && forall|n: u64|
                self@.dom().contains(n) && is_candidate(self@[n], exclude)
                    <==> #[trigger] nodes.contains(n);
        let k = chance_below(candidates.len());
        proof {
            assert(lists_candidates(self@, exclude, candidates@));
            assert(chosen_below(candidates@.len() as usize, k));
            match k {
                Some(i) => {
                    assert(nodes.contains(nodes[i as int]));
                    assert(self@.dom().contains(nodes[i as int]));
                },
                None => {
                    assert forall|n: u64| #[trigger] self@.dom().contains(n) implies !is_candidate(
                        self@[n],
                        exclude,
                    ) by {
                        assert(!nodes.contains(n));
                    }
                },
            }
        }
        pick(&candidates, k)
    }

    /// All members, each once.
    pub fn all_members(&self) -> (r: Vec<Member>)
        requires
            self.wf(),
        ensures
            r@.len() == self@.dom().len(),
            lists_members(self@, r@),
            forall|m: Member| #[trigger] r@.contains(m) <==> self.has(m),
    {
        let n: usize = self.members.len();
        let ghost items = self.members.items();
        let mut out: Vec<Member> = Vec::new();
        let mut i: usize = 0;
        while i < n
            invariant
                self.wf(),
                items == self.members.items(),
                n == items.len(),
                i <= n,
                out@.len() == i,
                forall|j: int| 0 <= j < i ==> #[trigger] out@[j] == items[j].1,
            decreases n - i,
        {
            let (_, m) = self.members.entry(i);
            out.push(*m);
            i = i + 1;
        }
        proof {
            let nodes = items.map_values(|e: (u64, Member)| e.0);
            assert forall|j: int| 0 <= j < nodes.len() implies self@.dom().contains(
                #[trigger] nodes[j],
            ) && out@[j] == self@[nodes[j]] by {
                entry_in_map(items, j);
            }
            assert(members_of(self@, nodes, out@));
            assert forall|x: u64| self@.dom().contains(x) <==> #[trigger] nodes.contains(x) by {
                if self@.dom().contains(x) {
                    let j = choose|j: int|
                        0 <= j < items.len() && (#[trigger] items[j]).0.key() == x;
                    assert(nodes[j] == x);
                }
            }
            assert forall|m: Member| #[trigger] out@.contains(m) <==> self.has(m) by {
                if out@.contains(m) {
                    let j = choose|j: int| 0 <= j < out@.len() && out@[j] == m;
                    assert(items[j].1 == m);
                    entry_in_map(items, j);
                    assert(self@.dom().contains(items[j].0));
                }
                if self.has(m) {
                    let k = choose|k: u64| #[trigger] self@.dom().contains(k) && self@[k] == m;
                    let j = choose|j: int|
                        0 <= j < items.len() && (#[trigger] items[j]).0.key() == k;
                    entry_in_map(items, j);
                    assert(out@[j] == m);
                }
            }
        }
        out
    }
}

impl Default for MembershipList {
    fn default() -> (r: Self)
        ensures
            r.wf(),
            r@ == Map::<u64, Member>::empty(),
    {
        Self::new()
    }
}

} // verus!
