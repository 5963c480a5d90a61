//! The registry of names across nodes: an observed-remove set of registrations, of which the
//! last writer's counts.
use crate::assoc::Assoc;
use crate::process::types::pid_is_its_parts;
use crate::process::ProcessId;
use crate::text::{before, before_is_transitive, str_before};
use vstd::prelude::*;

verus! {

/// One registration of a name.
#[derive(Debug, PartialEq, Eq)]
pub struct RegistryEntry {
    pub name: String,
    pub pid: ProcessId,
    pub tag: u128,
    pub timestamp: u64,
    pub node_id: u64,
}

/// The content of a registration.
pub struct EntryView {
    pub name: Seq<char>,
    pub pid: ProcessId,
    pub tag: u128,
    pub timestamp: u64,
    pub node_id: u64,
}

impl View for RegistryEntry {
    type V = EntryView;

    open spec fn view(&self) -> EntryView {
        EntryView {
            name: self.name@,
            pid: self.pid,
            tag: self.tag,
            timestamp: self.timestamp,
            node_id: self.node_id,
        }
    }
}

impl Clone for RegistryEntry {
    fn clone(&self) -> (r: Self)
        ensures
            r == *self,
    {
        RegistryEntry {
            name: self.name.clone(),
            pid: self.pid,
            tag: self.tag,
            timestamp: self.timestamp,
            node_id: self.node_id,
        }
    }
}

/// A change of a registry, for other registries to follow.
#[derive(Debug, PartialEq, Eq)]
pub enum RegistryDelta {
    Add(RegistryEntry),
    Remove { name: String, tag: u128 },
}

/// The content of a change.
pub enum DeltaView {
    Add(EntryView),
    Remove { name: Seq<char>, tag: u128 },
}

impl View for RegistryDelta {
    type V = DeltaView;

    open spec fn view(&self) -> DeltaView {
        match *self {
            RegistryDelta::Add(e) => DeltaView::Add(e@),
            RegistryDelta::Remove { name, tag } => DeltaView::Remove { name: name@, tag },
        }
    }
}

impl Clone for RegistryDelta {
    fn clone(&self) -> (r: Self)
        ensures
            r == *self,
    {
        match self {
            RegistryDelta::Add(e) => RegistryDelta::Add(e.clone()),
            RegistryDelta::Remove { name, tag } => RegistryDelta::Remove {
                name: name.clone(),
                tag: *tag,
            },
        }
    }
}

impl DeltaView {
    pub open spec fn tag(self) -> u128 {
        match self {
            DeltaView::Add(e) => e.tag,
            DeltaView::Remove { name, tag } => tag,
        }
    }

    pub open spec fn name(self) -> Seq<char> {
        match self {
            DeltaView::Add(e) => e.name,
            DeltaView::Remove { name, tag } => name,
        }
    }
}

/// The content of a registry: the registrations in the order of their arrival, and the tags
/// that were removed.
#[verifier::ext_equal]
pub struct RegistryView {
    pub entries: Seq<EntryView>,
    pub tombstones: Set<u128>,
}

/// `uuid::Uuid::new_v4`, as a number. The tag is random, so nothing is claimed of it.
#[verifier::external_body]
fn fresh_tag() -> u128 {
    uuid::Uuid::new_v4().as_u128()
}

/// Whether the tag was drawn at random.
pub closed spec fn is_drawn(tag: u128) -> bool {
    call_ensures(fresh_tag, (), tag)
}

/// Whether a process has the higher identity: the higher node, of those the higher thread, and of
/// those the higher number.
pub open spec fn pid_above(a: ProcessId, b: ProcessId) -> bool {
    ||| a.node() > b.node()
    ||| a.node() == b.node() && a.thread() > b.thread()
    ||| a.node() == b.node() && a.thread() == b.thread() && a.local() > b.local()
}

/// Whether a registration counts before another: it is later, or as late and of a node with a
/// higher number. Where that tells two registrations of a name not apart, the higher tag counts,
/// and then the higher process.
pub open spec fn beats(a: EntryView, b: EntryView) -> bool {
    if a.timestamp != b.timestamp {
        a.timestamp > b.timestamp
    } else if a.node_id != b.node_id {
        a.node_id > b.node_id
    } else if a.tag != b.tag {
        a.tag > b.tag
    } else {
        pid_above(a.pid, b.pid)
    }
}

/// What does not count before one registration, and this not before another, does not count
/// before the other.
pub proof fn beats_is_transitive(a: EntryView, b: EntryView, c: EntryView)
    requires
        !beats(a, b),
        !beats(b, c),
    ensures
        !beats(a, c),
{
}

/// Of two different registrations of a name one counts before the other.
pub proof fn beats_is_total(a: EntryView, b: EntryView)
    requires
        a.name == b.name,
        !beats(a, b),
        !beats(b, a),
    ensures
        a == b,
{
    pid_is_its_parts(a.pid, b.pid);
}

/// Whether a registration counts before another.
fn counts_before(a: &RegistryEntry, b: &RegistryEntry) -> (r: bool)
    ensures
        r == beats(a@, b@),
{
    if a.timestamp != b.timestamp {
        a.timestamp > b.timestamp
    } else if a.node_id != b.node_id {
        a.node_id > b.node_id
    } else if a.tag != b.tag {
        a.tag > b.tag
    } else if a.pid.node_id() != b.pid.node_id() {
        a.pid.node_id() > b.pid.node_id()
    } else if a.pid.thread_id() != b.pid.thread_id() {
        a.pid.thread_id() > b.pid.thread_id()
    } else {
        a.pid.local_id() > b.pid.local_id()
    }
}

/// Whether the registration at the index counts for the name: none of the name beats it, and it
/// beats those of the name that arrived after it.
pub open spec fn is_winner(entries: Seq<EntryView>, name: Seq<char>, i: int) -> bool {
    &&& 0 <= i < entries.len()
    &&& entries[i].name == name
    &&& forall|j: int|
        0 <= j < entries.len() && (#[trigger] entries[j]).name == name ==> !beats(
            entries[j],
            entries[i],
        ) && (j > i ==> beats(entries[i], entries[j]))
}

/// Whether the name has a registration.
pub open spec fn has_name(entries: Seq<EntryView>, name: Seq<char>) -> bool {
    exists|i: int| 0 <= i < entries.len() && (#[trigger] entries[i]).name == name
}

/// Whether a registration of the name with the tag is there.
pub open spec fn has_tag(entries: Seq<EntryView>, name: Seq<char>, tag: u128) -> bool {
    exists|i: int|
        0 <= i < entries.len() && (#[trigger] entries[i]).name == name && entries[i].tag == tag
}

/// The tags of the registrations that are dropped.
pub open spec fn dropped_tags(entries: Seq<EntryView>, drop: spec_fn(EntryView) -> bool) -> Set<
    u128,
> {
    Set::new(
        |t: u128|
            exists|i: int|
                0 <= i < entries.len() && drop(#[trigger] entries[i]) && entries[i].tag == t,
    )
}

/// A registry without the registrations that are dropped, whose tags were removed.
pub open spec fn without(v: RegistryView, drop: spec_fn(EntryView) -> bool) -> RegistryView {
    RegistryView {
        entries: v.entries.filter(|e: EntryView| !drop(e)),
        tombstones: v.tombstones.union(dropped_tags(v.entries, drop)),
    }
}

/// A registry after it followed a change. A registration with a removed tag, or that is there
/// already, is not added; a removal takes the registration with its tag out, whatever name it
/// carries, and keeps the tag from coming back.
pub open spec fn merged(v: RegistryView, d: DeltaView) -> RegistryView {
    match d {
        DeltaView::Add(e) => if v.tombstones.contains(e.tag) || has_tag(v.entries, e.name, e.tag) {
            v
        } else {
            RegistryView { entries: v.entries.push(e), tombstones: v.tombstones }
        },
        DeltaView::Remove { name, tag } => RegistryView {
            entries: v.entries.filter(|e: EntryView| e.tag != tag),
            tombstones: v.tombstones.insert(tag),
        },
    }
}

/// The removals of all registrations of a name, in their order.
pub open spec fn removals(entries: Seq<EntryView>, name: Seq<char>) -> Seq<DeltaView>
    decreases entries.len(),
{
    if entries.len() == 0 {
        Seq::empty()
    } else if entries.last().name == name {
        removals(entries.drop_last(), name).push(
            DeltaView::Remove { name, tag: entries.last().tag },
        )
    } else {
        removals(entries.drop_last(), name)
    }
}

/// The contents of changes.
pub open spec fn delta_views(s: Seq<RegistryDelta>) -> Seq<DeltaView> {
    Seq::new(s.len(), |i: int| s[i]@)
}

/// The contents of registrations.
pub open spec fn entry_views(s: Seq<RegistryEntry>) -> Seq<EntryView> {
    Seq::new(s.len(), |i: int| s[i]@)
}

/// Whether changes are what brings another registry to this content: the additions of all
/// registrations, then the removals of all removed tags, without a name.
pub open spec fn full_sync(v: RegistryView, deltas: Seq<DeltaView>) -> bool {
    let n = v.entries.len();
    &&& deltas.len() >= n
    &&& forall|i: int| 0 <= i < n ==> #[trigger] deltas[i] == DeltaView::Add(v.entries[i])
    &&& forall|i: int|
        n <= i < deltas.len() ==> #[trigger] deltas[i] == (DeltaView::Remove {
            name: Seq::empty(),
            tag: deltas[i].tag(),
        }) && v.tombstones.contains(deltas[i].tag())
    &&& forall|t: u128|
        v.tombstones.contains(t) ==> exists|i: int|
            n <= i < deltas.len() && (#[trigger] deltas[i]).tag() == t
}

/// A registry of names.
pub struct Registry {
    entries: Vec<RegistryEntry>,
    tombstones: Assoc<u128, ()>,
}

impl Registry {
    pub closed spec fn view(self) -> RegistryView {
        RegistryView {
            entries: entry_views(self.entries@),
            tombstones: self.tombstones@.dom(),
        }
    }

    /// Validity: no removed tag is listed twice.
    pub closed spec fn wf(self) -> bool {
        self.tombstones.wf()
    }

    /// The empty registry.
    pub fn new() -> (r: Self)
        ensures
            r.wf(),
            r@.entries == Seq::<EntryView>::empty(),
            r@.tombstones == Set::<u128>::empty(),
    {
        let r = Self { entries: Vec::new(), tombstones: Assoc::new() };
        assert(r@.entries =~= Seq::<EntryView>::empty());
        assert(r@.tombstones =~= Set::<u128>::empty());
        r
    }

    /// Registers a name beside the registrations that it has, under a fresh tag.
    pub fn register(&mut self, name: &str, pid: ProcessId, node_id: u64, timestamp: u64) -> (r:
        u128)
        requires
            old(self).wf(),
        ensures
            final(self).wf(),
            is_drawn(r),
            final(self)@ == (RegistryView {
                entries: old(self)@.entries.push(
                    EntryView { name: name@, pid, tag: r, timestamp, node_id },
                ),
                tombstones: old(self)@.tombstones,
            }),
    {
        let tag: u128 = fresh_tag();
        self.register_tagged(name, pid, node_id, timestamp, tag);
        tag
    }

    /// Registers a name beside the registrations that it has, under the tag.
    pub fn register_tagged(
        &mut self,
        name: &str,
        pid: ProcessId,
        node_id: u64,
        timestamp: u64,
        tag: u128,
    )
        requires
            old(self).wf(),
        ensures
            final(self).wf(),
            final(self)@ == (RegistryView {
                entries: old(self)@.entries.push(
                    EntryView { name: name@, pid, tag, timestamp, node_id },
                ),
                tombstones: old(self)@.tombstones,
            }),
    {
        let entry = RegistryEntry { name: name.to_string(), pid, tag, timestamp, node_id };
        self.entries.push(entry);
        assert(self@.entries =~= old(self)@.entries.push(entry@));
    }

    /// The index of the registration that counts for a name.
    fn winner(&self, name: &String) -> (r: Option<usize>)
        ensures
            match r {
                Some(i) => is_winner(self@.entries, name@, i as int),
                None => !has_name(self@.entries, name@),
            },
    {
        let mut best: Option<usize> = None;
        let mut i: usize = 0;
        assert(self@.entries.take(0) =~= Seq::empty());
        while i < self.entries.len()
            invariant
                i <= self.entries@.len(),
                match best {
                    Some(b) => b < i && is_winner(self@.entries.take(i as int), name@, b as int),
                    None => forall|j: int|
                        0 <= j < i ==> (#[trigger] self@.entries[j]).name != name@,
                },
            decreases self.entries@.len() - i,
        {
            let ghost seen = self@.entries.take(i as int);
            let ghost next = self@.entries.take(i + 1);
            let e = &self.entries[i];
            assert(e@ == self@.entries[i as int]);
            proof {
                assert forall|j: int| 0 <= j < i implies #[trigger] next[j] == seen[j] by {}
            }
            if e.name == *name {
                let better = match best {
                    Some(b) => {
                        let c = &self.entries[b];
                        assert(c@ == seen[b as int]);
                        !counts_before(c, e)
                    },
                    None => true,
                };
                if better {
                    proof {
                        assert forall|j: int|
                            0 <= j < next.len() && (#[trigger] next[j]).name == name@ implies !beats(
                            next[j],
                            next[i as int],
                        ) && (j > i ==> beats(next[i as int], next[j])) by {
                            if j < i {
                                assert(next[j] == seen[j]);
                                match best {
                                    Some(b) => {
                                        assert(!beats(seen[j], seen[b as int]));
                                        beats_is_transitive(
                                            seen[j],
                                            seen[b as int],
                                            next[i as int],
                                        );
                                    },
                                    None => {
                                        assert(self@.entries[j].name != name@);
                                    },
                                }
                            }
                        }
                    }
                    best = Some(i);
                } else {
                    proof {
                        let b = best->0 as int;
                        assert forall|j: int|
                            0 <= j < next.len() && (#[trigger] next[j]).name == name@ implies !beats(
                            next[j],
                            next[b],
                        ) && (j > b ==> beats(next[b], next[j])) by {
                            if j < i {
                                assert(next[j] == seen[j]);
                            }
                        }
                    }
                }
            } else {
                proof {
                    if let Some(b) = best {
                        assert forall|j: int|
                            0 <= j < next.len() && (#[trigger] next[j]).name == name@ implies !beats(
                            next[j],
                            next[b as int],
                        ) && (j > b ==> beats(next[b as int], next[j])) by {
                            assert(next[j] == seen[j]);
                        }
                    }
                }
            }
            i = i + 1;
        }
        assert(self@.entries.take(i as int) =~= self@.entries);
        best
    }

    /// The registration that counts for a name: the latest, of those the one of the node with
    /// the highest number, of those the one with the highest tag, and of those the one of the
    /// highest process.
    pub fn lookup(&self, name: &str) -> (r: Option<&RegistryEntry>)
        ensures
            match r {
                Some(e) => exists|i: int| #[trigger]
                    is_winner(self@.entries, name@, i) && e@ == self@.entries[i],
                None => !has_name(self@.entries, name@),
            },
            match r {
                Some(e) => {
                    &&& e.name@ == name@
                    &&& self@.entries.contains(e@)
                    &&& forall|j: int|
                        0 <= j < self@.entries.len() && (#[trigger] self@.entries[j]).name == name@
                            ==> {
                            ||| self@.entries[j].timestamp < e.timestamp
                            ||| self@.entries[j].timestamp == e.timestamp && self@.entries[j].node_id
                                <= e.node_id
                        }
                },
                None => forall|j: int|
                    0 <= j < self@.entries.len() ==> (#[trigger] self@.entries[j]).name != name@,
            },
    {
        let key = name.to_string();
        match self.winner(&key) {
            Some(i) => {
                assert(self@.entries.contains(self@.entries[i as int]));
                assert(self.entries@[i as int]@ == self@.entries[i as int]);
                Some(&self.entries[i])
            },
            None => None,
        }
    }

    /// Removes all registrations of a name, and gives their removals, for other registries to
    /// follow; nothing if there is none.
    pub fn unregister(&mut self, name: &str) -> (r: Option<Vec<RegistryDelta>>)
        requires
            old(self).wf(),
        ensures
            final(self).wf(),
            match r {
                Some(deltas) => {
                    &&& has_name(old(self)@.entries, name@)
                    &&& delta_views(deltas@) == removals(old(self)@.entries, name@)
                    &&& final(self)@ == without(old(self)@, |e: EntryView| e.name == name@)
                },
                None => !has_name(old(self)@.entries, name@) && final(self)@ == old(self)@,
            },
            forall|e: EntryView| #[trigger]
                final(self)@.entries.contains(e) <==> old(self)@.entries.contains(e) && e.name
                    != name@,
            forall|j: int|
                0 <= j < old(self)@.entries.len() && (#[trigger] old(self)@.entries[j]).name
                    == name@ ==> final(self)@.tombstones.contains(old(self)@.entries[j].tag),
            r is Some <==> exists|j: int|
                0 <= j < old(self)@.entries.len() && (#[trigger] old(self)@.entries[j]).name
                    == name@,
    {
        let key = name.to_string();
        let mut deltas: Vec<RegistryDelta> = Vec::new();
        let ghost before = self@;
        let ghost drop = |e: EntryView| e.name == name@;
        let ghost keep = |e: EntryView| !drop(e);
        let mut kept: Vec<RegistryEntry> = Vec::new();
        let mut i: usize = 0;
        proof {
            reveal(Seq::filter);
            assert(before.entries.take(0) =~= Seq::empty());
            assert(delta_views(deltas@) =~= Seq::empty());
            assert(entry_views(kept@) =~= Seq::empty());
            assert(self@.tombstones =~= before.tombstones.union(
                dropped_tags(before.entries.take(0), drop),
            ));
        }
        while i < self.entries.len()
            invariant
                self.tombstones.wf(),
                before.entries == entry_views(self.entries@),
                i <= self.entries@.len(),
                key@ == name@,
                drop == (|e: EntryView| e.name == name@),
                keep == (|e: EntryView| !drop(e)),
                entry_views(kept@) == before.entries.take(i as int).filter(keep),
                delta_views(deltas@) == removals(before.entries.take(i as int), name@),
                self.tombstones@.dom() == before.tombstones.union(
                    dropped_tags(before.entries.take(i as int), drop),
                ),
                deltas@.len() > 0 ==> has_name(before.entries, name@),
                deltas@.len() == 0 ==> forall|j: int|
                    0 <= j < i ==> (#[trigger] before.entries[j]).name != name@,
            decreases self.entries@.len() - i,
        {
            let ghost kept0 = kept@;
            let ghost deltas0 = deltas@;
            let ghost seen = before.entries.take(i as int);
            let ghost next = before.entries.take(i + 1);
            let ghost tombs0 = self.tombstones@.dom();
            proof {
                reveal(Seq::filter);
                assert(next.drop_last() =~= seen);
                assert(next.last() == self.entries@[i as int]@);
                assert(before.entries[i as int] == self.entries@[i as int]@);
            }
            let e = self.entries[i].clone();
            if e.name == key {
                self.tombstones.insert(e.tag, ());
                deltas.push(RegistryDelta::Remove { name: key.clone(), tag: e.tag });
                proof {
                    assert(delta_views(deltas@) =~= delta_views(deltas0).push(
                        DeltaView::Remove { name: name@, tag: e.tag },
                    ));
                    dropped_tags_grow(seen, next.last(), drop);
                    assert(seen.push(next.last()) =~= next);
                    assert(self.tombstones@.dom() =~= before.tombstones.union(
                        dropped_tags(next, drop),
                    ));
                }
            } else {
                kept.push(e);
                proof {
                    assert(entry_views(kept@) =~= entry_views(kept0).push(next.last()));
                    dropped_tags_grow(seen, next.last(), drop);
                    assert(seen.push(next.last()) =~= next);
                    assert(self.tombstones@.dom() =~= before.tombstones.union(
                        dropped_tags(next, drop),
                    ));
                }
            }
            i = i + 1;
        }
        assert(before.entries.take(i as int) =~= before.entries);
        if deltas.len() == 0 {
            proof {
                assert(dropped_tags(before.entries, drop) =~= Set::<u128>::empty());
                assert(self@.tombstones =~= before.tombstones);
            }
            return None;
        }
        self.entries = kept;
        proof {
            assert(self@ == without(before, drop));
            what_is_dropped_is_gone(before, drop);
            assert forall|e: EntryView| #[trigger]
                self@.entries.contains(e) <==> before.entries.contains(e) && e.name != name@ by {
                assert(drop(e) <==> e.name == name@);
            }
            assert forall|j: int|
                0 <= j < before.entries.len() && (#[trigger] before.entries[j]).name
                    == name@ implies self@.tombstones.contains(before.entries[j].tag) by {
                assert(drop(before.entries[j]));
            }
        }
        Some(deltas)
    }

    /// Drops the registrations of a process or of a node, and keeps their tags from coming back.
    fn drop_where(&mut self, by_pid: Option<ProcessId>, by_node: Option<u64>)
        requires
            old(self).wf(),
        ensures
            final(self).wf(),
            final(self)@ == without(old(self)@, |e: EntryView| is_of(e, by_pid, by_node)),
    {
        let ghost before = self@;
        let ghost drop = |e: EntryView| is_of(e, by_pid, by_node);
        let ghost keep = |e: EntryView| !drop(e);
        let mut kept: Vec<RegistryEntry> = Vec::new();
        let mut i: usize = 0;
        proof {
            reveal(Seq::filter);
            assert(before.entries.take(0) =~= Seq::empty());
            assert(entry_views(kept@) =~= Seq::empty());
            assert(self@.tombstones =~= before.tombstones.union(
                dropped_tags(before.entries.take(0), drop),
            ));
        }
        while i < self.entries.len()
            invariant
                self.tombstones.wf(),
                before.entries == entry_views(self.entries@),
                i <= self.entries@.len(),
                drop == (|e: EntryView| is_of(e, by_pid, by_node)),
                keep == (|e: EntryView| !drop(e)),
                entry_views(kept@) == before.entries.take(i as int).filter(keep),
                self.tombstones@.dom() == before.tombstones.union(
                    dropped_tags(before.entries.take(i as int), drop),
                ),
            decreases self.entries@.len() - i,
        {
            let ghost kept0 = kept@;
            let ghost seen = before.entries.take(i as int);
            let ghost next = before.entries.take(i + 1);
            proof {
                reveal(Seq::filter);
                assert(next.drop_last() =~= seen);
                assert(next.last() == self.entries@[i as int]@);
                dropped_tags_grow(seen, next.last(), drop);
                assert(seen.push(next.last()) =~= next);
            }
            let e = self.entries[i].clone();
            let of_pid = match by_pid {
                Some(p) => e.pid == p,
                None => false,
            };
            let of_node = match by_node {
                Some(n) => e.node_id == n,
                None => false,
            };
            if of_pid || of_node {
                self.tombstones.insert(e.tag, ());
            } else {
                kept.push(e);
                assert(entry_views(kept@) =~= entry_views(kept0).push(next.last()));
            }
            assert(self.tombstones@.dom() =~= before.tombstones.union(dropped_tags(next, drop)));
            i = i + 1;
        }
        assert(before.entries.take(i as int) =~= before.entries);
        self.entries = kept;
    }

    /// Removes all registrations of a process.
    pub fn remove_by_pid(&mut self, pid: ProcessId)
        requires
            old(self).wf(),
        ensures
            final(self).wf(),
            final(self)@ == without(old(self)@, |e: EntryView| e.pid == pid),
            forall|e: EntryView| #[trigger]
                final(self)@.entries.contains(e) <==> old(self)@.entries.contains(e) && e.pid != pid,
            forall|t: u128| #[trigger]
                final(self)@.tombstones.contains(t) <==> old(self)@.tombstones.contains(t)
                    || exists|j: int|
                    0 <= j < old(self)@.entries.len() && (#[trigger] old(self)@.entries[j]).pid
                        == pid && old(self)@.entries[j].tag == t,
    {
        let ghost before = self@;
        self.drop_where(Some(pid), None);
        proof {
            without_is_pointwise(
                before,
                |e: EntryView| is_of(e, Some(pid), None),
                |e: EntryView| e.pid == pid,
            );
            what_is_dropped_is_gone(before, |e: EntryView| e.pid == pid);
        }
    }

    /// Removes all registrations from a node.
    pub fn remove_by_node(&mut self, node_id: u64)
        requires
            old(self).wf(),
        ensures
            final(self).wf(),
            final(self)@ == without(old(self)@, |e: EntryView| e.node_id == node_id),
            forall|e: EntryView| #[trigger]
                final(self)@.entries.contains(e) <==> old(self)@.entries.contains(e) && e.node_id
                    != node_id,
            forall|t: u128| #[trigger]
                final(self)@.tombstones.contains(t) <==> old(self)@.tombstones.contains(t)
                    || exists|j: int|
                    0 <= j < old(self)@.entries.len() && (#[trigger] old(self)@.entries[j]).node_id
                        == node_id && old(self)@.entries[j].tag == t,
    {
        let ghost before = self@;
        self.drop_where(None, Some(node_id));
        proof {
            without_is_pointwise(
                before,
                |e: EntryView| is_of(e, None, Some(node_id)),
                |e: EntryView| e.node_id == node_id,
            );
            what_is_dropped_is_gone(before, |e: EntryView| e.node_id == node_id);
        }
    }

    /// The registered names in order, each with the process that counts for it.
    pub fn registered(&self) -> (r: Vec<(String, ProcessId)>)
        ensures
            names_in_order(r@),
            forall|k: int|
                0 <= k < r@.len() ==> wins(self@.entries, (#[trigger] r@[k]).0@, r@[k].1),
            forall|i: int|
                0 <= i < self@.entries.len() ==> lists(r@, (#[trigger] self@.entries[i]).name),
            forall|k: int|
                0 <= k < r@.len() ==> newest_is_of(self@.entries, (#[trigger] r@[k]).0@, r@[k].1),
            lists_all(r@, self@.entries),
    {
        let mut out: Vec<(String, ProcessId)> = Vec::new();
        let mut i: usize = 0;
        while i < self.entries.len()
            invariant
                i <= self.entries@.len(),
                names_in_order(out@),
                forall|k: int|
                    0 <= k < out@.len() ==> wins(
                        self@.entries,
                        (#[trigger] out@[k]).0@,
                        out@[k].1,
                    ),
                forall|j: int|
                    0 <= j < i ==> lists(out@, (#[trigger] self@.entries[j]).name),
            decreases self.entries@.len() - i,
        {
            let name = self.entries[i].name.clone();
            let ghost prev = out@;
            assert(self@.entries[i as int].name == name@);
            match self.winner(&name) {
                Some(w) => {
                    let pid = self.entries[w].pid;
                    assert(self@.entries[w as int].pid == pid);
                    insert_named(&mut out, name, pid);
                    proof {
                        assert forall|k: int| 0 <= k < out@.len() implies wins(
                            self@.entries,
                            (#[trigger] out@[k]).0@,
                            out@[k].1,
                        ) by {
                            if prev.contains(out@[k]) {
                                let k0 = choose|k0: int|
                                    0 <= k0 < prev.len() && prev[k0] == out@[k];
                                assert(out@[k] == prev[k0]);
                            } else {
                                assert(is_winner(self@.entries, out@[k].0@, w as int));
                            }
                        }
                        assert forall|j: int| 0 <= j < i + 1 implies lists(
                            out@,
                            (#[trigger] self@.entries[j]).name,
                        ) by {
                            if j < i {
                                assert(lists(prev, self@.entries[j].name));
                            }
                        }
                    }
                },
                None => {
                    assert(has_name(self@.entries, name@));
                },
            }
            i = i + 1;
        }
        proof {
            assert forall|k: int| 0 <= k < out@.len() implies newest_is_of(
                self@.entries,
                (#[trigger] out@[k]).0@,
                out@[k].1,
            ) by {
                let w = choose|w: int| #[trigger]
                    is_winner(self@.entries, out@[k].0@, w) && self@.entries[w].pid == out@[k].1;
                assert(none_newer(self@.entries, w));
            }
        }
        out
    }

    /// Whether a registration of the name with the tag is there.
    fn contains_tag(&self, name: &String, tag: u128) -> (r: bool)
        ensures
            r == has_tag(self@.entries, name@, tag),
    {
        let mut i: usize = 0;
        while i < self.entries.len()
            invariant
                i <= self.entries@.len(),
                forall|j: int|
                    0 <= j < i ==> !((#[trigger] self@.entries[j]).name == name@
                        && self@.entries[j].tag == tag),
            decreases self.entries@.len() - i,
        {
            assert(self@.entries[i as int] == self.entries@[i as int]@);
            if self.entries[i].tag == tag && self.entries[i].name == *name {
                return true;
            }
            i = i + 1;
        }
        false
    }

    /// Follows a change that another registry made.
    pub fn merge_delta(&mut self, delta: RegistryDelta)
        requires
            old(self).wf(),
        ensures
            final(self).wf(),
            final(self)@ == merged(old(self)@, delta@),
    {
        let ghost before = self@;
        match delta {
            RegistryDelta::Add(entry) => {
                if self.tombstones.contains_key(&entry.tag) {
                    return;
                }
                if self.contains_tag(&entry.name, entry.tag) {
                    return;
                }
                let ghost view = entry@;
                self.entries.push(entry);
                assert(self@.entries =~= before.entries.push(view));
            },
            RegistryDelta::Remove { name: _, tag } => {
                let ghost keep = |e: EntryView| e.tag != tag;
                self.tombstones.insert(tag, ());
                let mut kept: Vec<RegistryEntry> = Vec::new();
                let mut i: usize = 0;
                proof {
                    reveal(Seq::filter);
                    assert(before.entries.take(0) =~= Seq::empty());
                    assert(entry_views(kept@) =~= Seq::empty());
                }
                while i < self.entries.len()
                    invariant
                        before.entries == entry_views(self.entries@),
                        i <= self.entries@.len(),
                        keep == (|e: EntryView| e.tag != tag),
                        entry_views(kept@) == before.entries.take(i as int).filter(keep),
                    decreases self.entries@.len() - i,
                {
                    let ghost kept0 = kept@;
                    let ghost next = before.entries.take(i + 1);
                    proof {
                        reveal(Seq::filter);
                        assert(next.drop_last() =~= before.entries.take(i as int));
                        assert(next.last() == self.entries@[i as int]@);
                    }
                    let e = self.entries[i].clone();
                    if e.tag != tag {
                        kept.push(e);
                        assert(entry_views(kept@) =~= entry_views(kept0).push(next.last()));
                    }
                    i = i + 1;
                }
                assert(before.entries.take(i as int) =~= before.entries);
                self.entries = kept;
                assert(self@.tombstones =~= before.tombstones.insert(tag));
            },
        }
    }

    /// The changes that make another registry follow this one: the additions of all
    /// registrations, then the removals of all removed tags, without a name.
    pub fn generate_deltas(&self) -> (r: Vec<RegistryDelta>)
        requires
            self.wf(),
        ensures
            r@.len() == self@.entries.len() + self@.tombstones.len(),
            full_sync(self@, delta_views(r@)),
    {
        let mut deltas: Vec<RegistryDelta> = Vec::new();
        let mut i: usize = 0;
        while i < self.entries.len()
            invariant
                i <= self.entries@.len(),
                deltas@.len() == i,
                forall|j: int|
                    0 <= j < i ==> (#[trigger] deltas@[j])@ == DeltaView::Add(self@.entries[j]),
            decreases self.entries@.len() - i,
        {
            deltas.push(RegistryDelta::Add(self.entries[i].clone()));
            i = i + 1;
        }
        let n: usize = self.tombstones.len();
        let ghost base = deltas@.len();
        let ghost items = self.tombstones.items();
        let mut k: usize = 0;
        while k < n
            invariant
                self.wf(),
                items == self.tombstones.items(),
                n == items.len(),
                k <= n,
                base == self@.entries.len(),
                deltas@.len() == base + k,
                forall|j: int|
                    0 <= j < base ==> (#[trigger] deltas@[j])@ == DeltaView::Add(self@.entries[j]),
                forall|j: int|
                    base <= j < deltas@.len() ==> (#[trigger] deltas@[j])@ == (
                    DeltaView::Remove { name: Seq::empty(), tag: items[j - base].0 })
                        && self@.tombstones.contains(items[j - base].0),
            decreases n - k,
        {
            let (tag, _) = self.tombstones.entry(k);
            let name = String::new();
            deltas.push(RegistryDelta::Remove { name, tag: *tag });
            k = k + 1;
        }
        proof {
            let views = delta_views(deltas@);
            assert forall|j: int| 0 <= j < deltas@.len() implies #[trigger] views[j]
                == deltas@[j]@ by {}
            assert forall|t: u128| self@.tombstones.contains(t) implies exists|j: int|
                self@.entries.len() <= j < views.len() && (#[trigger] views[j]).tag() == t by {
                let a = choose|a: int|
                    0 <= a < items.len() && crate::assoc::AssocKey::key(&(#[trigger] items[a]).0)
                        == t;
                assert(deltas@[base + a]@.tag() == t);
                assert(views[base + a].tag() == t);
            }
        }
        deltas
    }
}

/// Whether the registration that counts for the name is of the process.
pub open spec fn wins(entries: Seq<EntryView>, name: Seq<char>, pid: ProcessId) -> bool {
    exists|i: int| #[trigger] is_winner(entries, name, i) && entries[i].pid == pid
}

/// Whether no registration of the same name is later than the one at the index, nor as late and
/// of a node with a higher number.
pub open spec fn none_newer(entries: Seq<EntryView>, i: int) -> bool {
    forall|j: int|
        0 <= j < entries.len() && (#[trigger] entries[j]).name == entries[i].name ==> {
            ||| entries[j].timestamp < entries[i].timestamp
            ||| entries[j].timestamp == entries[i].timestamp && entries[j].node_id
                <= entries[i].node_id
        }
}

/// Whether some registration of the name is of the process, and none of the name is later, nor as
/// late and of a node with a higher number.
pub open spec fn newest_is_of(entries: Seq<EntryView>, name: Seq<char>, pid: ProcessId) -> bool {
    exists|i: int|
        0 <= i < entries.len() && (#[trigger] entries[i]).name == name && entries[i].pid == pid
            && none_newer(entries, i)
}

/// A listing and a look-up agree: the process listed for a name is that of the registration that
/// a look-up of the name gives, and no registration of the name is later than that one, nor as
/// late and of a node with a higher number.
pub proof fn listing_agrees_with_lookup(
    entries: Seq<EntryView>,
    name: Seq<char>,
    pid: ProcessId,
    i: int,
    j: int,
)
    requires
        wins(entries, name, pid),
        is_winner(entries, name, i),
        0 <= j < entries.len(),
        entries[j].name == name,
    ensures
        entries[i].name == name,
        entries[i].pid == pid,
        entries[j].timestamp <= entries[i].timestamp,
        entries[j].timestamp == entries[i].timestamp ==> entries[j].node_id <= entries[i].node_id,
        entries[j].timestamp == entries[i].timestamp && entries[j].node_id == entries[i].node_id
            ==> entries[j].tag <= entries[i].tag,
        entries[j].timestamp == entries[i].timestamp && entries[j].node_id == entries[i].node_id
            && entries[j].tag == entries[i].tag ==> entries[j].pid.node() <= entries[i].pid.node(),
{
    let w = choose|w: int| #[trigger] is_winner(entries, name, w) && entries[w].pid == pid;
    if i < w {
        assert(beats(entries[i], entries[w]));
    }
    if w < i {
        assert(beats(entries[w], entries[i]));
    }
}

/// What is dropped is gone and stays gone, and nothing else is: exactly the registrations that
/// are not dropped are left, and exactly the tags of those that are join the removed ones.
pub proof fn what_is_dropped_is_gone(v: RegistryView, drop: spec_fn(EntryView) -> bool)
    ensures
        forall|e: EntryView| #[trigger]
            without(v, drop).entries.contains(e) <==> v.entries.contains(e) && !drop(e),
        forall|t: u128| #[trigger]
            without(v, drop).tombstones.contains(t) <==> v.tombstones.contains(t) || exists|j: int|
                0 <= j < v.entries.len() && drop(#[trigger] v.entries[j]) && v.entries[j].tag == t,
{
    let keep = |e: EntryView| !drop(e);
    assert forall|e: EntryView| #[trigger]
        without(v, drop).entries.contains(e) <==> v.entries.contains(e) && !drop(e) by {
        kept_are_those_that_pass(v.entries, keep, e);
    }
}

proof fn kept_are_those_that_pass(s: Seq<EntryView>, keep: spec_fn(EntryView) -> bool, e: EntryView)
    ensures
        s.filter(keep).contains(e) <==> s.contains(e) && keep(e),
    decreases s.len(),
{
    reveal(Seq::filter);
    if s.len() > 0 {
        let front = s.drop_last();
        let kept = front.filter(keep);
        kept_are_those_that_pass(front, keep, e);
        if front.contains(e) {
            let i = choose|i: int| 0 <= i < front.len() && front[i] == e;
            assert(s[i] == e);
        }
        if s.contains(e) && e != s.last() {
            let i = choose|i: int| 0 <= i < s.len() && s[i] == e;
            assert(front[i] == e);
        }
        if kept.contains(e) && keep(s.last()) {
            let i = choose|i: int| 0 <= i < kept.len() && kept[i] == e;
            assert(s.filter(keep)[i] == e);
        }
        if keep(s.last()) {
            assert(s.filter(keep)[kept.len() as int] == s.last());
            if s.filter(keep).contains(e) && e != s.last() {
                let i = choose|i: int| 0 <= i < s.filter(keep).len() && s.filter(keep)[i] == e;
                assert(kept[i] == e);
            }
        }
        assert(s[s.len() - 1] == s.last());
    }
}

/// Whether names are in order, and none occurs twice.
pub open spec fn names_in_order(s: Seq<(String, ProcessId)>) -> bool {
    forall|i: int, j: int|
        0 <= i < j < s.len() ==> before((#[trigger] s[i]).0@, (#[trigger] s[j]).0@)
}

/// Whether a list has the name.
pub open spec fn lists(s: Seq<(String, ProcessId)>, name: Seq<char>) -> bool {
    exists|k: int| 0 <= k < s.len() && (#[trigger] s[k]).0@ == name
}

/// Whether a list has the names of all registrations.
pub open spec fn lists_all(s: Seq<(String, ProcessId)>, entries: Seq<EntryView>) -> bool {
    forall|i: int| 0 <= i < entries.len() ==> lists(s, (#[trigger] entries[i]).name)
}

/// Puts a name and its process in their place in a list of names in order, unless the name is
/// there.
fn insert_named(out: &mut Vec<(String, ProcessId)>, name: String, pid: ProcessId)
    requires
        names_in_order(old(out)@),
    ensures
        names_in_order(final(out)@),
        forall|x: Seq<char>| #[trigger]
            lists(final(out)@, x) <==> (lists(old(out)@, x) || x == name@),
        forall|k: int|
            0 <= k < final(out)@.len() ==> old(out)@.contains(#[trigger] final(out)@[k])
                || final(out)@[k] == (name, pid),
{
    let ghost s = out@;
    let mut i: usize = 0;
    while i < out.len() && str_before(out[i].0.as_str(), name.as_str())
        invariant
            out@ == s,
            i <= s.len(),
            forall|j: int| 0 <= j < i ==> before((#[trigger] s[j]).0@, name@),
        decreases s.len() - i,
    {
        i = i + 1;
    }
    if i < out.len() && out[i].0 == name {
        proof {
            assert(lists(s, name@)) by {
                assert(s[i as int].0@ == name@);
            }
            assert forall|k: int| 0 <= k < s.len() implies s.contains(#[trigger] s[k]) by {}
        }
        return;
    }
    let ghost e = (name, pid);
    out.insert(i, (name, pid));
    proof {
        let t = out@;
        assert(t =~= s.insert(i as int, e));
        if i < s.len() {
            assert(before(name@, s[i as int].0@));
        }
        assert forall|a: int, b: int| 0 <= a < b < t.len() implies before(
            (#[trigger] t[a]).0@,
            (#[trigger] t[b]).0@,
        ) by {
            let p = if a < i {
                a
            } else {
                a - 1
            };
            let q = if b < i {
                b
            } else {
                b - 1
            };
            if a != i && b != i {
                assert(before(s[p].0@, s[q].0@));
            } else if b == i {
                assert(before(s[a].0@, name@));
            } else {
                assert(before(name@, s[i as int].0@));
                if q > i {
                    assert(before(s[i as int].0@, s[q].0@));
                    before_is_transitive(name@, s[i as int].0@, s[q].0@);
                }
            }
        }
        assert forall|x: Seq<char>| #[trigger] lists(t, x) <==> (lists(s, x) || x == name@) by {
            if lists(s, x) {
                let k = choose|k: int| 0 <= k < s.len() && (#[trigger] s[k]).0@ == x;
                let k2 = if k < i {
                    k
                } else {
                    k + 1
                };
                assert(t[k2].0@ == x);
            }
            assert(t[i as int].0@ == name@);
            if lists(t, x) {
                let k = choose|k: int| 0 <= k < t.len() && (#[trigger] t[k]).0@ == x;
                if k != i {
                    let k2 = if k < i {
                        k
                    } else {
                        k - 1
                    };
                    assert(s[k2].0@ == x);
                }
            }
        }
        assert forall|k: int| 0 <= k < t.len() implies s.contains(#[trigger] t[k]) || t[k] == e by {
            if k != i {
                let k2 = if k < i {
                    k
                } else {
                    k - 1
                };
                assert(s[k2] == t[k]);
            }
        }
    }
}

impl Default for Registry {
    fn default() -> (r: Self)
        ensures
            r.wf(),
            r@.entries == Seq::<EntryView>::empty(),
            r@.tombstones == Set::<u128>::empty(),
    {
        Self::new()
    }
}

/// Whether a registration is of the process or of the node.
pub open spec fn is_of(e: EntryView, by_pid: Option<ProcessId>, by_node: Option<u64>) -> bool {
    (by_pid matches Some(p) && e.pid == p) || (by_node matches Some(n) && e.node_id == n)
}

proof fn dropped_tags_grow(s: Seq<EntryView>, e: EntryView, drop: spec_fn(EntryView) -> bool)
    ensures
        dropped_tags(s.push(e), drop) == (if drop(e) {
            dropped_tags(s, drop).insert(e.tag)
        } else {
            dropped_tags(s, drop)
        }),
{
    let t = s.push(e);
    assert forall|x: u128| dropped_tags(t, drop).contains(x) <==> (dropped_tags(s, drop).contains(x)
        || (drop(e) && x == e.tag)) by {
        if dropped_tags(s, drop).contains(x) {
            let i = choose|i: int|
                0 <= i < s.len() && drop(#[trigger] s[i]) && s[i].tag == x;
            assert(t[i] == s[i]);
        }
        assert(t[s.len() as int] == e);
        if dropped_tags(t, drop).contains(x) {
            let i = choose|i: int|
                0 <= i < t.len() && drop(#[trigger] t[i]) && t[i].tag == x;
            if i < s.len() {
                assert(s[i] == t[i]);
            }
        }
    }
    assert(dropped_tags(t, drop) =~= (if drop(e) {
        dropped_tags(s, drop).insert(e.tag)
    } else {
        dropped_tags(s, drop)
    }));
}

proof fn filter_is_pointwise(
    s: Seq<EntryView>,
    f: spec_fn(EntryView) -> bool,
    g: spec_fn(EntryView) -> bool,
)
    requires
        forall|e: EntryView| #[trigger] f(e) == g(e),
    ensures
        s.filter(f) == s.filter(g),
    decreases s.len(),
{
    reveal(Seq::filter);
    if s.len() > 0 {
        filter_is_pointwise(s.drop_last(), f, g);
        assert(f(s.last()) == g(s.last()));
    }
}

proof fn without_is_pointwise(
    v: RegistryView,
    f: spec_fn(EntryView) -> bool,
    g: spec_fn(EntryView) -> bool,
)
    requires
        forall|e: EntryView| #[trigger] f(e) == g(e),
    ensures
        without(v, f) == without(v, g),
{
    filter_is_pointwise(v.entries, |e: EntryView| !f(e), |e: EntryView| !g(e));
    assert(dropped_tags(v.entries, f) =~= dropped_tags(v.entries, g)) by {
        assert forall|t: u128|
            dropped_tags(v.entries, f).contains(t) == dropped_tags(v.entries, g).contains(t) by {
            if dropped_tags(v.entries, f).contains(t) {
                let i = choose|i: int|
                    0 <= i < v.entries.len() && f(#[trigger] v.entries[i]) && v.entries[i].tag == t;
                assert(g(v.entries[i]));
            }
            if dropped_tags(v.entries, g).contains(t) {
                let i = choose|i: int|
                    0 <= i < v.entries.len() && g(#[trigger] v.entries[i]) && v.entries[i].tag == t;
                assert(f(v.entries[i]));
            }
        }
    }
}

} // verus!
