//! Gossip: what nodes tell each other of nodes.
use crate::cluster::addr::SocketAddr;
use std::collections::VecDeque;
use vstd::prelude::*;

verus! {

/// A piece of gossip.
#[derive(Debug, Clone, Copy, PartialEq)]
pub enum GossipUpdate {
    Alive { node_id: u64, addr: SocketAddr, incarnation: u64, cert_hash: Option<[u8; 32]> },
    Suspect { node_id: u64, addr: SocketAddr, incarnation: u64 },
    Dead { node_id: u64, addr: SocketAddr },
    Leave { node_id: u64, addr: SocketAddr },
}

/// The gossip that waits to be told, oldest first.
pub struct GossipQueue {
    queue: VecDeque<GossipUpdate>,
}

impl GossipQueue {
    pub closed spec fn view(self) -> Seq<GossipUpdate> {
        self.queue@
    }

    /// The queue without gossip.
    pub fn new() -> (r: Self)
        ensures
            r@ == Seq::<GossipUpdate>::empty(),
    {
        Self { queue: VecDeque::new() }
    }

    /// Puts a piece of gossip behind the others.
    pub fn add(&mut self, update: GossipUpdate)
        ensures
            final(self)@ == old(self)@.push(update),
    {
        self.queue.push_back(update);
    }

    /// Takes the oldest pieces of gossip, `max` at most.
    pub fn drain(&mut self, max: usize) -> (r: Vec<GossipUpdate>)
        ensures
            r@ == old(self)@.take(drained(max, old(self)@.len())),
            final(self)@ == old(self)@.skip(drained(max, old(self)@.len())),
            old(self)@ == r@ + final(self)@,
            r@.len() <= max,
            r@.len() == max || final(self)@.len() == 0,
    {
        let ghost before = self@;
        let len: usize = self.queue.len();
        let count: usize = if max < len {
            max
        } else {
            len
        };
        let mut out: Vec<GossipUpdate> = Vec::new();
        let mut i: usize = 0;
        assert(before.take(0) =~= Seq::empty());
        assert(before.skip(0) =~= before);
        while i < count
            invariant
                i <= count,
                count <= before.len(),
                out@ == before.take(i as int),
                self.queue@ == before.skip(i as int),
            decreases count - i,
        {
            match self.queue.pop_front() {
                Some(u) => {
                    out.push(u);
                    i = i + 1;
                    assert(out@ =~= before.take(i as int));
                    assert(self.queue@ =~= before.skip(i as int));
                },
                None => {
                    assert(before =~= out@ + self.queue@);
                    return out;
                },
            }
        }
        assert(before =~= out@ + self.queue@);
        out
    }
}

/// How many of `len` pieces of gossip are taken when at most `max` are asked for.
pub open spec fn drained(max: usize, len: nat) -> int {
    if max < len {
        max as int
    } else {
        len as int
    }
}

/// Gossip is told in the order in which it came, and nothing is lost or told twice: what one
/// draining takes, followed by what the next takes and by what is left, is what was there.
pub proof fn gossip_is_first_in_first_out(q: Seq<GossipUpdate>, a: usize, b: usize)
    ensures
        ({
            let first = q.take(drained(a, q.len()));
            let rest = q.skip(drained(a, q.len()));
            let second = rest.take(drained(b, rest.len()));
            let left = rest.skip(drained(b, rest.len()));
            q == first + second + left
        }),
{
    let first = q.take(drained(a, q.len()));
    let rest = q.skip(drained(a, q.len()));
    let second = rest.take(drained(b, rest.len()));
    let left = rest.skip(drained(b, rest.len()));
    assert(q =~= first + second + left);
}

/// A draining takes as much as it may: `max` pieces, or all that wait if they are fewer.
pub proof fn draining_takes_what_it_may(q: Seq<GossipUpdate>, max: usize)
    ensures
        q.take(drained(max, q.len())).len() <= max,
        q.take(drained(max, q.len())).len() == max || q.skip(drained(max, q.len())).len() == 0,
{
}

impl Default for GossipQueue {
    fn default() -> (r: Self)
        ensures
            r@ == Seq::<GossipUpdate>::empty(),
    {
        Self::new()
    }
}

} // verus!
