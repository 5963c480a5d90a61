//! Leaving a cluster in order: say so, let messages out, stop.
use crate::cluster::addr::SocketAddr;
use crate::cluster::protocol::Frame;
use crate::cluster::registry::{
    lists, names_in_order, without, wins, EntryView, Registry,
};
use crate::cluster::router::RouterCommand;
use crate::cluster::swim::gossip::{GossipQueue, GossipUpdate};
use crate::process::ProcessId;
use crate::text::{before, before_is_strict};
use crate::time::Duration;
use vstd::prelude::*;
use vstd::set_lib::{lemma_len_subset, lemma_set_difference_len};

verus! {

/// How long each phase of leaving may take.
#[derive(Debug, Clone, Copy, PartialEq, Eq, Structural)]
pub struct DrainConfig {
    /// Time for the others to hear that the node leaves.
    pub announce_timeout: Duration,
    /// Time for messages on their way out.
    pub drain_timeout: Duration,
    /// Time for supervisors to stop.
    pub shutdown_timeout: Duration,
}

impl Default for DrainConfig {
    fn default() -> (r: Self)
        ensures
            r.announce_timeout@ == 5_000_000_000,
            r.drain_timeout@ == 30_000_000_000,
            r.shutdown_timeout@ == 10_000_000_000,
    {
        Self {
            announce_timeout: Duration::from_secs(5),
            drain_timeout: Duration::from_secs(30),
            shutdown_timeout: Duration::from_secs(10),
        }
    }
}

/// What leaving came to.
#[derive(Debug)]
pub struct DrainResult {
    /// The number of processes stopped.
    pub processes_stopped: usize,
    /// The number of messages let out.
    pub messages_drained: usize,
    /// How long each phase took.
    pub phase_durations: [Duration; 3],
    /// Whether a phase ran out of time.
    pub timed_out: bool,
}

/// The names that have a registration.
pub open spec fn names(entries: Seq<EntryView>) -> Set<Seq<char>> {
    entries.map_values(|e: EntryView| e.name).to_set()
}

/// What can happen while messages are let out: a command comes, no more can come, or the time
/// given is over.
pub enum DrainEvent {
    Command(RouterCommand),
    Closed,
    TimedOut,
}

/// What to do next while messages are let out: send a frame to a node and go on, or stop.
pub enum DrainStep {
    Route { node_id: u64, frame: Frame },
    Finished { drained: usize, timed_out: bool },
}

/// The orderly leaving of a node.
pub struct NodeDrain {
    config: DrainConfig,
}

impl NodeDrain {
    pub closed spec fn timing(self) -> DrainConfig {
        self.config
    }

    pub fn new(config: DrainConfig) -> (r: Self)
        ensures
            r.timing() == config,
    {
        Self { config }
    }

    /// Says that the node leaves, and removes all registrations from it. Gives the number of
    /// names that are registered no more.
    pub fn announce(
        &self,
        node_id: u64,
        addr: SocketAddr,
        gossip: &mut GossipQueue,
        registry: &mut Registry,
    ) -> (r: usize)
        requires
            old(registry).wf(),
        ensures
            final(registry).wf(),
            final(gossip)@ == old(gossip)@.push(GossipUpdate::Leave { node_id, addr }),
            final(registry)@ == without(old(registry)@, |e: EntryView| e.node_id == node_id),
            r == names(old(registry)@.entries).difference(names(final(registry)@.entries)).len(),
            forall|e: EntryView| #[trigger]
                final(registry)@.entries.contains(e) <==> old(registry)@.entries.contains(e)
                    && e.node_id != node_id,
    {
        gossip.add(GossipUpdate::Leave { node_id, addr });
        let before = registry.registered();
        let ghost entries = registry@.entries;
        let names_before: usize = before.len();
        registry.remove_by_node(node_id);
        let after = registry.registered();
        let names_after: usize = after.len();
        proof {
            let left = registry@.entries;
            listed_once(entries, before@);
            listed_once(left, after@);
            assert(names(left).subset_of(names(entries))) by {
                broadcast use Seq::lemma_filter_contains_rev;

                assert forall|n: Seq<char>| names(left).contains(n) implies names(
                    entries,
                ).contains(n) by {
                    names_are_of_entries(left, n);
                    let i = choose|i: int| 0 <= i < left.len() && (#[trigger] left[i]).name == n;
                    assert(left.contains(left[i]));
                    assert(entries.contains(left[i]));
                    let j = choose|j: int| 0 <= j < entries.len() && entries[j] == left[i];
                    assert(entries[j].name == n);
                    names_are_of_entries(entries, n);
                }
            }
            lemma_len_subset(names(left), names(entries));
            lemma_set_difference_len(names(entries), names(left));
            assert(names(entries).intersect(names(left)) =~= names(left));
        }
        names_before - names_after
    }

    /// How long to wait for the next message, after the time that has passed, or nothing if the
    /// time for messages is over.
    pub fn outbound_wait(&self, elapsed: Duration) -> (r: Option<Duration>)
        ensures
            match r {
                Some(d) => elapsed@ < self.timing().drain_timeout@ && d@
                    == self.timing().drain_timeout@ - elapsed@,
                None => elapsed@ >= self.timing().drain_timeout@,
            },
    {
        if elapsed.less_than(self.config.drain_timeout) {
            Some(self.config.drain_timeout.saturating_sub(elapsed))
        } else {
            None
        }
    }
}

/// Takes what happened while messages are let out: a command is a frame to send, counted as let
/// out whether or not it can be sent; without more commands, or when the time is over, it ends.
pub fn outbound_step(drained: &mut usize, event: DrainEvent) -> (r: DrainStep)
    requires
        *old(drained) < usize::MAX,
    ensures
        match event {
            DrainEvent::Command(RouterCommand::Send { node_id, frame }) => r == (DrainStep::Route {
                node_id,
                frame,
            }) && *final(drained) == *old(drained) + 1,
            DrainEvent::Closed => r == (DrainStep::Finished {
                drained: *old(drained),
                timed_out: false,
            }) && *final(drained) == *old(drained),
            DrainEvent::TimedOut => r == (DrainStep::Finished {
                drained: *old(drained),
                timed_out: true,
            }) && *final(drained) == *old(drained),
        },
{
    match event {
        DrainEvent::Command(RouterCommand::Send { node_id, frame }) => {
            *drained = *drained + 1;
            DrainStep::Route { node_id, frame }
        },
        DrainEvent::Closed => DrainStep::Finished { drained: *drained, timed_out: false },
        DrainEvent::TimedOut => DrainStep::Finished { drained: *drained, timed_out: true },
    }
}

/// A name is registered where a registration has it.
pub proof fn names_are_of_entries(entries: Seq<EntryView>, name: Seq<char>)
    ensures
        names(entries).contains(name) <==> exists|i: int|
            0 <= i < entries.len() && (#[trigger] entries[i]).name == name,
{
    let s = entries.map_values(|e: EntryView| e.name);
    if names(entries).contains(name) {
        let i = choose|i: int| 0 <= i < s.len() && s[i] == name;
        assert(entries[i].name == name);
    }
    if exists|i: int| 0 <= i < entries.len() && (#[trigger] entries[i]).name == name {
        let i = choose|i: int| 0 <= i < entries.len() && (#[trigger] entries[i]).name == name;
        assert(s[i] == name);
    }
}

/// A list of the registered names in order holds each of them once.
pub proof fn listed_once(entries: Seq<EntryView>, list: Seq<(String, ProcessId)>)
    requires
        names_in_order(list),
        forall|k: int| 0 <= k < list.len() ==> wins(entries, (#[trigger] list[k]).0@, list[k].1),
        forall|i: int| 0 <= i < entries.len() ==> lists(list, (#[trigger] entries[i]).name),
    ensures
        list.len() == names(entries).len(),
{
    let s = list.map_values(|p: (String, ProcessId)| p.0@);
    assert(s.no_duplicates()) by {
        assert forall|i: int, j: int| 0 <= i < j < s.len() implies s[i] != s[j] by {
            assert(before(list[i].0@, list[j].0@));
            before_is_strict(list[i].0@, list[j].0@);
        }
    }
    s.unique_seq_to_set();
    assert forall|n: Seq<char>| s.to_set().contains(n) <==> names(entries).contains(n) by {
        names_are_of_entries(entries, n);
        if s.to_set().contains(n) {
            let k = choose|k: int| 0 <= k < s.len() && s[k] == n;
            assert(wins(entries, list[k].0@, list[k].1));
        }
        if names(entries).contains(n) {
            let i = choose|i: int| 0 <= i < entries.len() && (#[trigger] entries[i]).name == n;
            assert(lists(list, entries[i].name));
            let k = choose|k: int| 0 <= k < list.len() && (#[trigger] list[k]).0@ == n;
            assert(s[k] == n);
        }
    }
    assert(s.to_set() =~= names(entries));
}

} // verus!
