//! Monitors and links: who watches whom, and who is tied to whom.
use crate::assoc::{Assoc, AssocKey};
use crate::counter::{drawn_number, draws_are_unique, Counter};
use crate::process::ProcessId;
use vstd::prelude::*;

verus! {

/// A reference that identifies one monitor relationship.
#[derive(Debug, Clone, Copy, PartialEq, Eq, Hash, Structural)]
pub struct MonitorRef(u64);

impl MonitorRef {
    pub closed spec fn number(self) -> u64 {
        self.0
    }

    /// Draws the next reference. All references of a runtime are drawn from one counter.
    pub fn new(counter: &mut Counter) -> (r: Self)
        ensures
            r.number() == old(counter)@,
            final(counter)@ == drawn_number(old(counter)@, 1),
    {
        MonitorRef(counter.draw())
    }
}

/// Two references are the same exactly if their numbers are.
pub proof fn monitor_ref_is_its_number(a: MonitorRef, b: MonitorRef)
    ensures
        (a == b) == (a.number() == b.number()),
{
}

/// References are unique: of those drawn from one counter, no two of any 2^64 in a row are the
/// same.
pub proof fn monitor_refs_are_unique(start: u64, i: int, j: int, a: MonitorRef, b: MonitorRef)
    requires
        0 <= i < j <= i + u64::MAX,
        a.number() == drawn_number(start, i),
        b.number() == drawn_number(start, j),
    ensures
        a != b,
{
    draws_are_unique(start, i, j);
}

impl AssocKey for MonitorRef {
    type Key = MonitorRef;

    open spec fn key(&self) -> MonitorRef {
        *self
    }

    fn same_key(&self, other: &Self) -> (r: bool) {
        *self == *other
    }
}

/// The references of a list other than the given one, in order.
pub open spec fn without_ref(s: Seq<MonitorRef>, mref: MonitorRef) -> Seq<MonitorRef> {
    s.filter(|m: MonitorRef| m != mref)
}

/// The monitors that are set, indexed by reference and by the watched process.
pub struct MonitorSet {
    by_ref: Assoc<MonitorRef, ProcessId>,
    by_target: Assoc<ProcessId, Vec<MonitorRef>>,
}

impl MonitorSet {
    /// The processes watched, by reference.
    pub closed spec fn targets(self) -> Map<MonitorRef, ProcessId> {
        self.by_ref@
    }

    /// The references that watch a process, in the order in which they were added.
    pub closed spec fn watchers(self, target: ProcessId) -> Seq<MonitorRef> {
        if self.by_target@.dom().contains(target) {
            self.by_target@[target]@
        } else {
            Seq::empty()
        }
    }

    /// Validity: the two indexes agree, and no index entry is empty or doubled.
    pub closed spec fn wf(self) -> bool {
        &&& self.by_ref.wf()
        &&& self.by_target.wf()
        &&& forall|t: ProcessId| #[trigger]
            self.by_target@.dom().contains(t) ==> self.by_target@[t]@.len() > 0
        &&& forall|t: ProcessId| (#[trigger] self.watchers(t)).no_duplicates()
        &&& forall|t: ProcessId, m: MonitorRef| #[trigger]
            self.watchers(t).contains(m) <==> (self.targets().dom().contains(m)
                && self.targets()[m] == t)
    }

    /// Whether every reference in use was drawn before the counter reached `n`.
    pub open spec fn issued_below(self, n: u64) -> bool {
        forall|m: MonitorRef| #[trigger] self.targets().dom().contains(m) ==> m.number() < n
    }

    /// The set without monitors.
    pub fn new() -> (r: Self)
        ensures
            r.wf(),
            r.targets() == Map::<MonitorRef, ProcessId>::empty(),
            forall|t: ProcessId| (#[trigger] r.watchers(t)) == Seq::<MonitorRef>::empty(),
            follows(r, Seq::<MonitorChange>::empty()),
            forall|n: u64| #[trigger] r.issued_below(n),
    {
        MonitorSet { by_ref: Assoc::new(), by_target: Assoc::new() }
    }

    /// Adds a monitor on a process, under the next reference of the counter.
    pub fn add_monitor(&mut self, target: ProcessId, counter: &mut Counter) -> (r:
        MonitorRef)
        requires
            old(self).wf(),
            old(self).issued_below(old(counter)@),
            old(counter)@ < u64::MAX,
        ensures
            final(self).wf(),
            r.number() == old(counter)@,
            final(counter)@ == old(counter)@ + 1,
            final(self).issued_below(final(counter)@),
            final(self).targets() == old(self).targets().insert(r, target),
            adds_monitor(*old(self), target, r, *final(self)),
    {
        let mref = MonitorRef::new(counter);
        let ghost before = *self;
        assert(!self.targets().dom().contains(mref));
        self.by_ref.insert(mref, target);
        let mut refs = match self.by_target.remove(&target) {
            Some(refs) => refs,
            None => Vec::new(),
        };
        assert(refs@ == before.watchers(target));
        assert(!refs@.contains(mref)) by {
            if refs@.contains(mref) {
                assert(before.watchers(target).contains(mref));
            }
        }
        refs.push(mref);
        self.by_target.insert(target, refs);
        proof {
            assert(self.watchers(target) == before.watchers(target).push(mref));
            assert forall|t: ProcessId| t != target implies (#[trigger] self.watchers(t))
                == before.watchers(t) by {}
            assert forall|t: ProcessId| (#[trigger] self.watchers(t)).no_duplicates() by {
                assert(before.watchers(t).no_duplicates());
            }
            assert forall|t: ProcessId, m: MonitorRef| #[trigger]
                self.watchers(t).contains(m) <==> (self.targets().dom().contains(m)
                    && self.targets()[m] == t) by {
                assert(before.watchers(t).contains(m) <==> (before.targets().dom().contains(m)
                    && before.targets()[m] == t));
                if t == target {
                    let old_refs = before.watchers(target);
                    if old_refs.contains(m) {
                        let i = choose|i: int| 0 <= i < old_refs.len() && old_refs[i] == m;
                        assert(old_refs.push(mref)[i] == m);
                    }
                    assert(old_refs.push(mref)[old_refs.len() as int] == mref);
                    if old_refs.push(mref).contains(m) && m != mref {
                        let i = choose|i: int|
                            0 <= i < old_refs.push(mref).len() && old_refs.push(mref)[i] == m;
                        assert(old_refs[i] == m);
                    }
                }
            }
        }
        mref
    }

    /// Removes the monitor with the reference, if there is one.
    pub fn remove_monitor(&mut self, mref: MonitorRef)
        requires
            old(self).wf(),
        ensures
            final(self).wf(),
            final(self).targets() == old(self).targets().remove(mref),
            removes_monitor(*old(self), mref, *final(self)),
            forall|n: u64| old(self).issued_below(n) ==> #[trigger] final(self).issued_below(n),
    {
        let ghost before = *self;
        let removed = self.by_ref.remove(&mref);
        match removed {
            Some(target) => {
                assert(before.watchers(target).contains(mref));
                let refs = match self.by_target.remove(&target) {
                    Some(refs) => refs,
                    None => Vec::new(),
                };
                let kept = without(&refs, mref);
                if kept.len() > 0 {
                    self.by_target.insert(target, kept);
                }
                proof {
                    assert(kept@.len() == 0 ==> kept@ =~= Seq::<MonitorRef>::empty());
                    assert(self.watchers(target) == without_ref(before.watchers(target), mref));
                }
            },
            None => {},
        }
        proof {
            assert forall|t: ProcessId| (#[trigger] self.watchers(t)) == without_ref(
                before.watchers(t),
                mref,
            ) by {
                if removed is None || t != removed->0 {
                    assert(self.watchers(t) == before.watchers(t));
                    assert(!before.watchers(t).contains(mref));
                    filter_all(before.watchers(t), mref);
                }
            }
            assert forall|t: ProcessId| (#[trigger] self.watchers(t)).no_duplicates() by {
                assert(before.watchers(t).no_duplicates());
                filter_keeps_distinct(before.watchers(t), mref);
            }
            assert forall|t: ProcessId, m: MonitorRef| #[trigger]
                self.watchers(t).contains(m) <==> (self.targets().dom().contains(m)
                    && self.targets()[m] == t) by {
                assert(before.watchers(t).contains(m) <==> (before.targets().dom().contains(m)
                    && before.targets()[m] == t));
                filter_members(before.watchers(t), mref, m);
            }
        }
    }

    /// The references that watch a process, in the order in which they were added.
    pub fn monitors_for(&self, target: ProcessId) -> (r: Vec<MonitorRef>)
        requires
            self.wf(),
        ensures
            r@ == self.watchers(target),
    {
        match self.by_target.get(&target) {
            Some(refs) => {
                let mut out: Vec<MonitorRef> = Vec::new();
                let mut i: usize = 0;
                while i < refs.len()
                    invariant
                        i <= refs.len(),
                        out@ == refs@.take(i as int),
                    decreases refs.len() - i,
                {
                    out.push(refs[i]);
                    i = i + 1;
                    assert(out@ =~= refs@.take(i as int));
                }
                assert(out@ =~= refs@);
                out
            },
            None => Vec::new(),
        }
    }
}

impl Default for MonitorSet {
    fn default() -> (r: Self)
        ensures
            r.wf(),
            r.targets() == Map::<MonitorRef, ProcessId>::empty(),
            forall|t: ProcessId| (#[trigger] r.watchers(t)) == Seq::<MonitorRef>::empty(),
    {
        MonitorSet::new()
    }
}

/// A reference watches a process exactly if it was set on it and is still in use, and it is listed
/// once.
pub proof fn watchers_are_listed_once(set: MonitorSet, target: ProcessId, m: MonitorRef)
    requires
        set.wf(),
    ensures
        set.watchers(target).contains(m) <==> (set.targets().dom().contains(m)
            && set.targets()[m] == target),
        set.watchers(target).no_duplicates(),
{
}

/// No reference watches two processes.
pub proof fn watchers_are_disjoint(set: MonitorSet, p: ProcessId, q: ProcessId, m: MonitorRef)
    requires
        set.wf(),
        p != q,
        set.watchers(p).contains(m),
    ensures
        !set.watchers(q).contains(m),
{
}

/// A reference that is not in use watches nothing, so that removing it changes no list.
pub proof fn unknown_references_watch_nothing(set: MonitorSet, m: MonitorRef, p: ProcessId)
    requires
        set.wf(),
        !set.targets().dom().contains(m),
    ensures
        !set.watchers(p).contains(m),
        without_ref(set.watchers(p), m) == set.watchers(p),
{
    assert(!set.watchers(p).contains(m));
    filter_all(set.watchers(p), m);
}

/// Whether adding a monitor on the process under the reference leads from one set to another.
pub open spec fn adds_monitor(
    before: MonitorSet,
    target: ProcessId,
    m: MonitorRef,
    after: MonitorSet,
) -> bool {
    &&& !before.targets().dom().contains(m)
    &&& after.watchers(target) == before.watchers(target).push(m)
    &&& forall|p: ProcessId|
        p != target ==> (#[trigger] after.watchers(p)) == before.watchers(p)
}

/// Whether removing the monitor with the reference leads from one set to another.
pub open spec fn removes_monitor(before: MonitorSet, m: MonitorRef, after: MonitorSet) -> bool {
    forall|p: ProcessId| (#[trigger] after.watchers(p)) == without_ref(before.watchers(p), m)
}

/// A monitor that is removed right after it was added leaves every list as it was.
pub proof fn removing_undoes_adding(
    before: MonitorSet,
    target: ProcessId,
    m: MonitorRef,
    added: MonitorSet,
    after: MonitorSet,
    p: ProcessId,
)
    requires
        before.wf(),
        adds_monitor(before, target, m, added),
        removes_monitor(added, m, after),
    ensures
        after.watchers(p) == before.watchers(p),
{
    reveal(Seq::filter);
    unknown_references_watch_nothing(before, m, p);
    if p == target {
        assert(added.watchers(p).drop_last() =~= before.watchers(p));
        assert(added.watchers(p).last() == m);
    }
}

/// What is done to a set of monitors.
pub enum MonitorChange {
    Add { target: ProcessId, mref: MonitorRef },
    Remove { mref: MonitorRef },
}

/// The references that changes of the empty set leave on a process: those that were added on it
/// and not removed since, in the order in which they were added.
pub open spec fn left_on(changes: Seq<MonitorChange>, p: ProcessId) -> Seq<MonitorRef>
    decreases changes.len(),
{
    if changes.len() == 0 {
        Seq::empty()
    } else {
        let before = left_on(changes.drop_last(), p);
        match changes.last() {
            MonitorChange::Add { target, mref } => if target == p {
                before.push(mref)
            } else {
                before
            },
            MonitorChange::Remove { mref } => without_ref(before, mref),
        }
    }
}

/// Whether a set lists on every process what the changes leave there.
pub open spec fn follows(set: MonitorSet, changes: Seq<MonitorChange>) -> bool {
    forall|p: ProcessId| (#[trigger] set.watchers(p)) == left_on(changes, p)
}

/// A set that lists what changes leave lists, after one more monitor was added, what they and the
/// addition leave.
pub proof fn adding_is_followed(
    before: MonitorSet,
    changes: Seq<MonitorChange>,
    target: ProcessId,
    mref: MonitorRef,
    after: MonitorSet,
)
    requires
        follows(before, changes),
        adds_monitor(before, target, mref, after),
    ensures
        follows(after, changes.push(MonitorChange::Add { target, mref })),
{
    let all = changes.push(MonitorChange::Add { target, mref });
    assert(all.drop_last() =~= changes);
    assert forall|p: ProcessId| (#[trigger] after.watchers(p)) == left_on(all, p) by {
        assert(before.watchers(p) == left_on(changes, p));
    }
}

/// A set that lists what changes leave lists, after a monitor was removed, what they and the
/// removal leave.
pub proof fn removing_is_followed(
    before: MonitorSet,
    changes: Seq<MonitorChange>,
    mref: MonitorRef,
    after: MonitorSet,
)
    requires
        follows(before, changes),
        removes_monitor(before, mref, after),
    ensures
        follows(after, changes.push(MonitorChange::Remove { mref })),
{
    let all = changes.push(MonitorChange::Remove { mref });
    assert(all.drop_last() =~= changes);
    assert forall|p: ProcessId| (#[trigger] after.watchers(p)) == left_on(all, p) by {
        assert(before.watchers(p) == left_on(changes, p));
    }
}

/// Whether changes add the reference on the process, and none behind that removes it.
pub open spec fn added_and_kept(changes: Seq<MonitorChange>, p: ProcessId, m: MonitorRef) -> bool {
    exists|i: int|
        0 <= i < changes.len() && #[trigger] changes[i] == (MonitorChange::Add {
            target: p,
            mref: m,
        }) && kept_from(changes, i, m)
}

/// Whether no change behind the index removes the reference.
pub open spec fn kept_from(changes: Seq<MonitorChange>, i: int, m: MonitorRef) -> bool {
    forall|j: int|
        i < j < changes.len() ==> #[trigger] changes[j] != (MonitorChange::Remove { mref: m })
}

/// Changes leave exactly the references that were added and not removed since.
pub proof fn left_are_the_added_and_kept(changes: Seq<MonitorChange>, p: ProcessId, m: MonitorRef)
    ensures
        left_on(changes, p).contains(m) <==> added_and_kept(changes, p, m),
    decreases changes.len(),
{
    if changes.len() > 0 {
        let front = changes.drop_last();
        let last = changes.len() - 1;
        left_are_the_added_and_kept(front, p, m);
        let before = left_on(front, p);
        match changes.last() {
            MonitorChange::Add { target, mref } => {
                if added_and_kept(front, p, m) {
                    let i = choose|i: int|
                        0 <= i < front.len() && #[trigger] front[i] == (MonitorChange::Add {
                            target: p,
                            mref: m,
                        }) && kept_from(front, i, m);
                    assert(changes[i] == front[i]);
                    assert forall|j: int| i < j < changes.len() implies #[trigger] changes[j] != (
                    MonitorChange::Remove { mref: m }) by {
                        if j < last {
                            assert(changes[j] == front[j]);
                        }
                    }
                    assert(kept_from(changes, i, m));
                }
                if target == p && mref == m {
                    assert(changes[last] == (MonitorChange::Add { target: p, mref: m }));
                    assert(kept_from(changes, last, m));
                }
                if added_and_kept(changes, p, m) {
                    let i = choose|i: int|
                        0 <= i < changes.len() && #[trigger] changes[i] == (MonitorChange::Add {
                            target: p,
                            mref: m,
                        }) && kept_from(changes, i, m);
                    if i < last {
                        assert(front[i] == changes[i]);
                        assert forall|j: int| i < j < front.len() implies #[trigger] front[j] != (
                        MonitorChange::Remove { mref: m }) by {
                            assert(changes[j] == front[j]);
                        }
                        assert(kept_from(front, i, m));
                    }
                }
                if before.contains(m) {
                    let k = choose|k: int| 0 <= k < before.len() && before[k] == m;
                    assert(before.push(mref)[k] == m);
                }
                assert(before.push(mref)[before.len() as int] == mref);
                if before.push(mref).contains(m) && m != mref {
                    let k = choose|k: int|
                        0 <= k < before.push(mref).len() && before.push(mref)[k] == m;
                    assert(before[k] == m);
                }
            },
            MonitorChange::Remove { mref } => {
                filter_members(before, mref, m);
                if m != mref && added_and_kept(front, p, m) {
                    let i = choose|i: int|
                        0 <= i < front.len() && #[trigger] front[i] == (MonitorChange::Add {
                            target: p,
                            mref: m,
                        }) && kept_from(front, i, m);
                    assert(changes[i] == front[i]);
                    assert forall|j: int| i < j < changes.len() implies #[trigger] changes[j] != (
                    MonitorChange::Remove { mref: m }) by {
                        if j < last {
                            assert(changes[j] == front[j]);
                        }
                    }
                    assert(kept_from(changes, i, m));
                }
                if added_and_kept(changes, p, m) {
                    let i = choose|i: int|
                        0 <= i < changes.len() && #[trigger] changes[i] == (MonitorChange::Add {
                            target: p,
                            mref: m,
                        }) && kept_from(changes, i, m);
                    assert(i < last);
                    assert(changes[last] != (MonitorChange::Remove { mref: m }));
                    assert(front[i] == changes[i]);
                    assert forall|j: int| i < j < front.len() implies #[trigger] front[j] != (
                    MonitorChange::Remove { mref: m }) by {
                        assert(changes[j] == front[j]);
                    }
                    assert(kept_from(front, i, m));
                }
            },
        }
    } else {
        assert(!left_on(changes, p).contains(m));
    }
}

/// The references of a list other than the given one, in order.
fn without(refs: &Vec<MonitorRef>, mref: MonitorRef) -> (r: Vec<MonitorRef>)
    ensures
        r@ == without_ref(refs@, mref),
{
    let mut out: Vec<MonitorRef> = Vec::new();
    let mut i: usize = 0;
    reveal(Seq::filter);
    assert(without_ref(refs@.take(0), mref) =~= Seq::empty());
    while i < refs.len()
        invariant
            i <= refs.len(),
            out@ == without_ref(refs@.take(i as int), mref),
        decreases refs.len() - i,
    {
        proof {
            reveal(Seq::filter);
            assert(refs@.take(i as int + 1).drop_last() =~= refs@.take(i as int));
        }
        if refs[i] != mref {
            out.push(refs[i]);
        }
        i = i + 1;
    }
    assert(refs@.take(refs@.len() as int) =~= refs@);
    out
}

proof fn filter_all(s: Seq<MonitorRef>, mref: MonitorRef)
    requires
        !s.contains(mref),
    ensures
        without_ref(s, mref) == s,
    decreases s.len(),
{
    reveal(Seq::filter);
    if s.len() > 0 {
        let front = s.drop_last();
        assert(!front.contains(mref)) by {
            if front.contains(mref) {
                let i = choose|i: int| 0 <= i < front.len() && front[i] == mref;
                assert(s[i] == mref);
            }
        }
        filter_all(front, mref);
        assert(s.last() != mref) by {
            assert(s[s.len() - 1] == s.last());
        }
        assert(s =~= front.push(s.last()));
    }
}

proof fn filter_members(s: Seq<MonitorRef>, mref: MonitorRef, m: MonitorRef)
    ensures
        without_ref(s, mref).contains(m) <==> (s.contains(m) && m != mref),
    decreases s.len(),
{
    reveal(Seq::filter);
    if s.len() > 0 {
        let front = s.drop_last();
        filter_members(front, mref, m);
        assert(s =~= front.push(s.last()));
        if front.contains(m) {
            let i = choose|i: int| 0 <= i < front.len() && front[i] == m;
            assert(s[i] == m);
        }
        if s.contains(m) && m != s.last() {
            let i = choose|i: int| 0 <= i < s.len() && s[i] == m;
            assert(front[i] == m);
        }
        if s.last() == m {
            assert(s[s.len() - 1] == m);
        }
        let f = without_ref(front, mref);
        if s.last() != mref {
            if f.contains(m) {
                let i = choose|i: int| 0 <= i < f.len() && f[i] == m;
                assert(f.push(s.last())[i] == m);
            }
            assert(f.push(s.last())[f.len() as int] == s.last());
            if f.push(s.last()).contains(m) && m != s.last() {
                let i = choose|i: int| 0 <= i < f.push(s.last()).len() && f.push(s.last())[i] == m;
                assert(f[i] == m);
            }
        }
    }
}

proof fn filter_keeps_distinct(s: Seq<MonitorRef>, mref: MonitorRef)
    requires
        s.no_duplicates(),
    ensures
        without_ref(s, mref).no_duplicates(),
    decreases s.len(),
{
    reveal(Seq::filter);
    if s.len() > 0 {
        let front = s.drop_last();
        filter_keeps_distinct(front, mref);
        filter_members(front, mref, s.last());
        assert(!front.contains(s.last())) by {
            if front.contains(s.last()) {
                let i = choose|i: int| 0 <= i < front.len() && front[i] == s.last();
                assert(s[i] == s[s.len() - 1]);
            }
        }
        let f = without_ref(front, mref);
        assert forall|i: int, j: int|
            0 <= i < f.push(s.last()).len() && 0 <= j < f.push(s.last()).len() && i
                != j implies f.push(s.last())[i] != f.push(s.last())[j] by {
            if i < f.len() {
                assert(f.contains(f[i]));
            }
            if j < f.len() {
                assert(f.contains(f[j]));
            }
        }
    }
}

/// The processes that one process is linked to.
pub struct LinkSet {
    links: Assoc<ProcessId, ()>,
}

impl LinkSet {
    pub closed spec fn view(self) -> Set<ProcessId> {
        self.links@.dom()
    }

    /// Validity: no process is listed twice.
    pub closed spec fn wf(self) -> bool {
        self.links.wf()
    }

    /// The set without links.
    pub fn new() -> (r: Self)
        ensures
            r.wf(),
            r@ == Set::<ProcessId>::empty(),
    {
        let r = LinkSet { links: Assoc::new() };
        assert(r@ =~= Set::<ProcessId>::empty());
        r
    }

    /// Links to a process. Linking twice is linking once.
    pub fn add_link(&mut self, pid: ProcessId)
        requires
            old(self).wf(),
        ensures
            final(self).wf(),
            final(self)@ == old(self)@.insert(pid),
    {
        self.links.insert(pid, ());
        assert(self@ =~= old(self)@.insert(pid));
    }

    /// Unlinks from a process.
    pub fn remove_link(&mut self, pid: ProcessId)
        requires
            old(self).wf(),
        ensures
            final(self).wf(),
            final(self)@ == old(self)@.remove(pid),
    {
        self.links.remove(&pid);
        assert(self@ =~= old(self)@.remove(pid));
    }

    /// Whether the set links to the process.
    pub fn is_linked(&self, pid: ProcessId) -> (r: bool)
        requires
            self.wf(),
        ensures
            r == self@.contains(pid),
    {
        self.links.contains_key(&pid)
    }

    /// All linked processes, each once.
    pub fn linked_pids(&self) -> (r: Vec<ProcessId>)
        requires
            self.wf(),
        ensures
            r@.no_duplicates(),
            r@.to_set() == self@,
    {
        let mut out: Vec<ProcessId> = Vec::new();
        let n: usize = self.links.len();
        let mut i: usize = 0;
        while i < n
            invariant
                self.wf(),
                n == self.links.items().len(),
                i <= n,
                out@.len() == i,
                forall|j: int| 0 <= j < i ==> #[trigger] out@[j] == self.links.items()[j].0,
            decreases n - i,
        {
            let (pid, _) = self.links.entry(i);
            out.push(*pid);
            i = i + 1;
        }
        proof {
            let items = self.links.items();
            assert forall|a: int, b: int|
                0 <= a < out@.len() && 0 <= b < out@.len() && a != b implies out@[a] != out@[b] by {
                assert(items[a].0.key() != items[b].0.key());
            }
            assert forall|p: ProcessId| out@.to_set().contains(p) <==> self@.contains(p) by {
                if out@.contains(p) {
                    let a = choose|a: int| 0 <= a < out@.len() && out@[a] == p;
                    assert(items[a].0.key() == p);
                }
                if self@.contains(p) {
                    let a = choose|a: int|
                        0 <= a < items.len() && (#[trigger] items[a]).0.key() == p;
                    assert(out@[a] == p);
                }
            }
            assert(out@.to_set() =~= self@);
        }
        out
    }
}

impl Default for LinkSet {
    fn default() -> (r: Self)
        ensures
            r.wf(),
            r@ == Set::<ProcessId>::empty(),
    {
        LinkSet::new()
    }
}

} // verus!
