//! The laws of the name registry: who wins a name, and that registries that follow the same
//! changes agree.
use crate::cluster::registry::{
    beats, beats_is_total, beats_is_transitive, dropped_tags, full_sync, has_name, has_tag,
    is_winner, merged, removals, without, DeltaView, EntryView, RegistryView,
};
use vstd::prelude::*;

verus! {

/// At most one registration counts for a name.
pub proof fn winner_is_unique(entries: Seq<EntryView>, name: Seq<char>, i: int, j: int)
    requires
        is_winner(entries, name, i),
        is_winner(entries, name, j),
    ensures
        i == j,
{
    if i < j {
        assert(beats(entries[i], entries[j]));
    }
    if j < i {
        assert(beats(entries[j], entries[i]));
    }
}

/// A name that has a registration has one that counts.
pub proof fn every_name_has_a_winner(entries: Seq<EntryView>, name: Seq<char>)
    requires
        has_name(entries, name),
    ensures
        exists|i: int| is_winner(entries, name, i),
    decreases entries.len(),
{
    let front = entries.drop_last();
    let last = entries.len() - 1;
    if has_name(front, name) {
        every_name_has_a_winner(front, name);
        let w = choose|w: int| is_winner(front, name, w);
        if entries[last].name == name && !beats(front[w], entries[last]) {
            assert forall|j: int|
                0 <= j < entries.len() && (#[trigger] entries[j]).name == name implies !beats(
                entries[j],
                entries[last],
            ) && (j > last ==> beats(entries[last], entries[j])) by {
                if j < last {
                    assert(front[j] == entries[j]);
                    beats_is_transitive(front[j], front[w], entries[last]);
                }
            }
            assert(is_winner(entries, name, last));
        } else {
            assert forall|j: int|
                0 <= j < entries.len() && (#[trigger] entries[j]).name == name implies !beats(
                entries[j],
                entries[w],
            ) && (j > w ==> beats(entries[w], entries[j])) by {
                if j < last {
                    assert(front[j] == entries[j]);
                }
            }
            assert(is_winner(entries, name, w));
        }
    } else {
        let i = choose|i: int| 0 <= i < entries.len() && (#[trigger] entries[i]).name == name;
        if i < last {
            assert(front[i].name == name);
        }
        assert forall|j: int|
            0 <= j < entries.len() && (#[trigger] entries[j]).name == name implies !beats(
            entries[j],
            entries[last],
        ) && (j > last ==> beats(entries[last], entries[j])) by {
            if j < last {
                assert(front[j].name == name);
            }
        }
        assert(is_winner(entries, name, last));
    }
}

/// The last writer wins: the registration that counts is not older than any other of the name.
pub proof fn last_writer_wins(entries: Seq<EntryView>, name: Seq<char>, i: int, j: int)
    requires
        is_winner(entries, name, i),
        0 <= j < entries.len(),
        entries[j].name == name,
    ensures
        entries[j].timestamp <= entries[i].timestamp,
        entries[j].timestamp == entries[i].timestamp ==> entries[j].node_id <= entries[i].node_id,
{
}

/// Two registries with the same registrations of a name, in whatever order they arrived, agree
/// on the one that counts.
pub proof fn winner_is_order_free(
    a: Seq<EntryView>,
    b: Seq<EntryView>,
    name: Seq<char>,
    i: int,
    j: int,
)
    requires
        forall|e: EntryView| e.name == name ==> (#[trigger] a.contains(e) <==> b.contains(e)),
        is_winner(a, name, i),
        is_winner(b, name, j),
    ensures
        a[i] == b[j],
{
    assert(a.contains(a[i]));
    assert(b.contains(b[j]));
    assert(a.contains(b[j]));
    let p = choose|p: int| 0 <= p < b.len() && b[p] == a[i];
    let q = choose|q: int| 0 <= q < a.len() && a[q] == b[j];
    assert(!beats(b[p], b[j]));
    assert(!beats(a[q], a[i]));
    beats_is_total(a[i], b[j]);
}

/// What follows a change twice has followed it once.
pub proof fn merge_is_idempotent(v: RegistryView, d: DeltaView)
    ensures
        merged(merged(v, d), d) == merged(v, d),
{
    let once = merged(v, d);
    match d {
        DeltaView::Add(e) => {
            if !v.tombstones.contains(e.tag) && !has_tag(v.entries, e.name, e.tag) {
                assert(once.entries[v.entries.len() as int] == e);
                assert(has_tag(once.entries, e.name, e.tag));
            }
        },
        DeltaView::Remove { name, tag } => {
            let keep = |e: EntryView| e.tag != tag;
            assert forall|i: int| 0 <= i < once.entries.len() implies keep(
                #[trigger] once.entries[i],
            ) by {
                v.entries.lemma_filter_pred(keep, i);
            }
            filter_keeps_all(once.entries, keep);
            assert(once.tombstones.insert(tag) =~= once.tombstones);
        },
    }
}

/// A removed registration does not come back: its addition is ignored.
pub proof fn no_resurrection(v: RegistryView, e: EntryView)
    requires
        v.tombstones.contains(e.tag),
    ensures
        merged(v, DeltaView::Add(e)) == v,
{
}

/// A removed tag stays removed, whatever change is followed.
pub proof fn tombstones_stay(v: RegistryView, d: DeltaView)
    ensures
        v.tombstones.subset_of(merged(v, d).tombstones),
{
}

/// Whether no registration has a removed tag.
pub open spec fn none_resurrected(v: RegistryView) -> bool {
    forall|i: int| 0 <= i < v.entries.len() ==> !v.tombstones.contains((#[trigger] v.entries[i]).tag)
}

/// A registry that lists no registration with a removed tag lists none after it followed a
/// change.
pub proof fn merging_resurrects_none(v: RegistryView, d: DeltaView)
    requires
        none_resurrected(v),
    ensures
        none_resurrected(merged(v, d)),
{
    let r = merged(v, d);
    match d {
        DeltaView::Add(e) => {},
        DeltaView::Remove { name, tag } => {
            let keep = |e: EntryView| e.tag != tag;
            assert forall|i: int| 0 <= i < r.entries.len() implies !r.tombstones.contains(
                (#[trigger] r.entries[i]).tag,
            ) by {
                filter_members(v.entries, keep, r.entries[i]);
                assert(r.entries.contains(r.entries[i]));
                let j = choose|j: int| 0 <= j < v.entries.len() && v.entries[j] == r.entries[i];
                assert(!v.tombstones.contains(v.entries[j].tag));
            }
        },
    }
}

proof fn filter_keeps_all(s: Seq<EntryView>, keep: spec_fn(EntryView) -> bool)
    requires
        forall|i: int| 0 <= i < s.len() ==> keep(#[trigger] s[i]),
    ensures
        s.filter(keep) == s,
    decreases s.len(),
{
    reveal(Seq::filter);
    if s.len() > 0 {
        let front = s.drop_last();
        assert forall|i: int| 0 <= i < front.len() implies keep(#[trigger] front[i]) by {
            assert(front[i] == s[i]);
        }
        filter_keeps_all(front, keep);
        assert(s =~= front.push(s.last()));
    }
}

proof fn filter_members(s: Seq<EntryView>, keep: spec_fn(EntryView) -> bool, e: EntryView)
    ensures
        s.filter(keep).contains(e) <==> (s.contains(e) && keep(e)),
    decreases s.len(),
{
    reveal(Seq::filter);
    if s.len() > 0 {
        let front = s.drop_last();
        filter_members(front, keep, e);
        assert(s =~= front.push(s.last()));
        push_members(front, s.last(), e);
        push_members(front.filter(keep), s.last(), e);
    }
}

proof fn push_members(s: Seq<EntryView>, x: EntryView, e: EntryView)
    ensures
        s.push(x).contains(e) <==> (s.contains(e) || e == x),
{
    if s.contains(e) {
        let i = choose|i: int| 0 <= i < s.len() && s[i] == e;
        assert(s.push(x)[i] == e);
    }
    assert(s.push(x)[s.len() as int] == x);
    if s.push(x).contains(e) && e != x {
        let i = choose|i: int| 0 <= i < s.push(x).len() && s.push(x)[i] == e;
        assert(s[i] == e);
    }
}

/// A registry after it followed changes, in order.
pub open spec fn merged_all(v: RegistryView, deltas: Seq<DeltaView>) -> RegistryView
    decreases deltas.len(),
{
    if deltas.len() == 0 {
        v
    } else {
        merged(merged_all(v, deltas.drop_last()), deltas.last())
    }
}

/// The empty registry.
pub open spec fn empty_registry() -> RegistryView {
    RegistryView { entries: Seq::empty(), tombstones: Set::empty() }
}

/// Whether changes add the registration.
pub open spec fn adds(deltas: Seq<DeltaView>, e: EntryView) -> bool {
    exists|i: int| 0 <= i < deltas.len() && #[trigger] deltas[i] == DeltaView::Add(e)
}

/// Whether changes remove the tag.
pub open spec fn removes(deltas: Seq<DeltaView>, tag: u128) -> bool {
    exists|i: int|
        0 <= i < deltas.len() && (#[trigger] deltas[i]) is Remove && deltas[i].tag() == tag
}

/// Whether a registry and changes speak of one registration where they carry one name and tag.
pub open spec fn consistent(v: RegistryView, deltas: Seq<DeltaView>) -> bool {
    &&& forall|x: EntryView, y: EntryView|
        #[trigger] adds(deltas, x) && #[trigger] adds(deltas, y) && x.name == y.name && x.tag
            == y.tag ==> x == y
    &&& forall|x: EntryView, y: EntryView|
        #[trigger] adds(deltas, x) && #[trigger] v.entries.contains(y) && x.name == y.name && x.tag
            == y.tag ==> x == y
}

/// What a registry holds that followed changes depends on what it held and on which changes they
/// were, and not on their order: the registrations that it held, or that some change adds whose
/// tag was not removed, without those that some change removes; and the tags that were removed,
/// or that some change removes.
pub proof fn merging_is_order_free(
    v: RegistryView,
    deltas: Seq<DeltaView>,
    e: EntryView,
    tag: u128,
)
    requires
        consistent(v, deltas),
    ensures
        merged_all(v, deltas).entries.contains(e) <==> ((v.entries.contains(e) || (adds(deltas, e)
            && !v.tombstones.contains(e.tag))) && !removes(deltas, e.tag)),
        merged_all(v, deltas).tombstones.contains(tag) <==> (v.tombstones.contains(tag) || removes(
            deltas,
            tag,
        )),
    decreases deltas.len(),
{
    if deltas.len() > 0 {
        let front = deltas.drop_last();
        let d = deltas.last();
        let r = merged_all(v, front);
        assert(consistent(v, front)) by {
            assert forall|x: EntryView| #[trigger] adds(front, x) implies adds(deltas, x) by {
                step_adds(deltas, x);
            }
        }
        merging_is_order_free(v, front, e, tag);
        merging_is_order_free(v, front, e, e.tag);
        step_adds(deltas, e);
        step_removes(deltas, tag);
        step_removes(deltas, e.tag);
        match d {
            DeltaView::Add(x) => {
                merging_is_order_free(v, front, x, x.tag);
                push_members(r.entries, x, e);
                step_adds(deltas, x);
                step_removes(deltas, x.tag);
                if has_tag(r.entries, x.name, x.tag) {
                    let k = choose|k: int|
                        0 <= k < r.entries.len() && (#[trigger] r.entries[k]).name == x.name
                            && r.entries[k].tag == x.tag;
                    let y = r.entries[k];
                    assert(r.entries.contains(y));
                    merging_is_order_free(v, front, y, tag);
                    step_adds(deltas, y);
                    assert(y == x);
                }
            },
            DeltaView::Remove { name, tag: gone } => {
                filter_members(r.entries, |x: EntryView| x.tag != gone, e);
            },
        }
    } else {
        assert(!adds(deltas, e));
        assert(!removes(deltas, e.tag));
        assert(!removes(deltas, tag));
    }
}

proof fn step_adds(deltas: Seq<DeltaView>, e: EntryView)
    requires
        deltas.len() > 0,
    ensures
        adds(deltas, e) <==> (adds(deltas.drop_last(), e) || deltas.last() == DeltaView::Add(e)),
{
    let front = deltas.drop_last();
    if adds(front, e) {
        let i = choose|i: int| 0 <= i < front.len() && #[trigger] front[i] == DeltaView::Add(e);
        assert(deltas[i] == DeltaView::Add(e));
    }
    if deltas.last() == DeltaView::Add(e) {
        assert(deltas[deltas.len() - 1] == DeltaView::Add(e));
    }
    if adds(deltas, e) {
        let i = choose|i: int| 0 <= i < deltas.len() && #[trigger] deltas[i] == DeltaView::Add(e);
        if i < front.len() {
            assert(front[i] == DeltaView::Add(e));
        }
    }
}

proof fn step_removes(deltas: Seq<DeltaView>, tag: u128)
    requires
        deltas.len() > 0,
    ensures
        removes(deltas, tag) <==> (removes(deltas.drop_last(), tag) || (deltas.last() is Remove
            && deltas.last().tag() == tag)),
{
    let front = deltas.drop_last();
    if removes(front, tag) {
        let i = choose|i: int|
            0 <= i < front.len() && (#[trigger] front[i]) is Remove && front[i].tag() == tag;
        assert(deltas[i] == front[i]);
    }
    if deltas.last() is Remove && deltas.last().tag() == tag {
        assert(deltas[deltas.len() - 1] is Remove);
    }
    if removes(deltas, tag) {
        let i = choose|i: int|
            0 <= i < deltas.len() && (#[trigger] deltas[i]) is Remove && deltas[i].tag() == tag;
        if i < front.len() {
            assert(front[i] == deltas[i]);
        }
    }
}

/// Whether two registries hold the same registrations and the same removed tags, whatever the
/// order of arrival.
pub open spec fn same_content(a: RegistryView, b: RegistryView) -> bool {
    &&& forall|e: EntryView| #[trigger] a.entries.contains(e) <==> b.entries.contains(e)
    &&& a.tombstones == b.tombstones
}

/// Registries that hold the same know the same names, and agree on the registration that counts
/// for each.
pub proof fn same_content_same_answers(a: RegistryView, b: RegistryView, name: Seq<char>)
    requires
        same_content(a, b),
    ensures
        has_name(a.entries, name) <==> has_name(b.entries, name),
        forall|i: int, j: int|
            #[trigger] is_winner(a.entries, name, i) && #[trigger] is_winner(b.entries, name, j)
                ==> a.entries[i] == b.entries[j],
{
    if has_name(a.entries, name) {
        let i = choose|i: int| 0 <= i < a.entries.len() && (#[trigger] a.entries[i]).name == name;
        assert(a.entries.contains(a.entries[i]));
        let j = choose|j: int| 0 <= j < b.entries.len() && b.entries[j] == a.entries[i];
        assert(b.entries[j].name == name);
    }
    if has_name(b.entries, name) {
        let i = choose|i: int| 0 <= i < b.entries.len() && (#[trigger] b.entries[i]).name == name;
        assert(b.entries.contains(b.entries[i]));
        assert(a.entries.contains(b.entries[i]));
        let j = choose|j: int| 0 <= j < a.entries.len() && a.entries[j] == b.entries[i];
        assert(a.entries[j].name == name);
    }
    assert forall|i: int, j: int|
        #[trigger] is_winner(a.entries, name, i) && #[trigger] is_winner(
            b.entries,
            name,
            j,
        ) implies a.entries[i] == b.entries[j] by {
        winner_is_order_free(a.entries, b.entries, name, i, j);
    }
}

/// Registries converge: two that held the same and followed the same changes, each in its own
/// order and as often as it likes, hold the same.
pub proof fn registries_converge(
    v: RegistryView,
    w: RegistryView,
    a: Seq<DeltaView>,
    b: Seq<DeltaView>,
)
    requires
        same_content(v, w),
        consistent(v, a),
        consistent(w, b),
        forall|d: DeltaView| #[trigger] a.contains(d) <==> b.contains(d),
    ensures
        same_content(merged_all(v, a), merged_all(w, b)),
{
    let x = merged_all(v, a);
    let y = merged_all(w, b);
    assert forall|e: EntryView| #[trigger] x.entries.contains(e) <==> y.entries.contains(e) by {
        merging_is_order_free(v, a, e, e.tag);
        merging_is_order_free(w, b, e, e.tag);
        same_adds_and_removes(a, b, e, e.tag);
        same_adds_and_removes(b, a, e, e.tag);
        assert(v.entries.contains(e) <==> w.entries.contains(e));
    }
    assert forall|t: u128| x.tombstones.contains(t) <==> y.tombstones.contains(t) by {
        let e = arbitrary::<EntryView>();
        merging_is_order_free(v, a, e, t);
        merging_is_order_free(w, b, e, t);
        same_adds_and_removes(a, b, e, t);
        same_adds_and_removes(b, a, e, t);
    }
    assert(x.tombstones =~= y.tombstones);
}

proof fn same_adds_and_removes(a: Seq<DeltaView>, b: Seq<DeltaView>, e: EntryView, tag: u128)
    requires
        forall|d: DeltaView| #[trigger] a.contains(d) ==> b.contains(d),
    ensures
        adds(a, e) ==> adds(b, e),
        removes(a, tag) ==> removes(b, tag),
{
    if adds(a, e) {
        let i = choose|i: int| 0 <= i < a.len() && #[trigger] a[i] == DeltaView::Add(e);
        assert(a.contains(a[i]));
        let j = choose|j: int| 0 <= j < b.len() && b[j] == a[i];
        assert(b[j] == DeltaView::Add(e));
    }
    if removes(a, tag) {
        let i = choose|i: int|
            0 <= i < a.len() && (#[trigger] a[i]) is Remove && a[i].tag() == tag;
        assert(a.contains(a[i]));
        let j = choose|j: int| 0 <= j < b.len() && b[j] == a[i];
        assert(b[j] is Remove);
    }
}

/// To register under a tag that is new is to follow the addition of the registration.
pub proof fn registering_is_merging(v: RegistryView, e: EntryView)
    requires
        !v.tombstones.contains(e.tag),
        !has_tag(v.entries, e.name, e.tag),
    ensures
        merged(v, DeltaView::Add(e)) == (RegistryView {
            entries: v.entries.push(e),
            tombstones: v.tombstones,
        }),
{
}

/// To unregister a name is to follow the removals that it gives, where no registration of another
/// name has the tag of one of the name's.
pub proof fn unregistering_is_merging(v: RegistryView, name: Seq<char>)
    requires
        forall|i: int|
            0 <= i < v.entries.len() && has_tag(v.entries, name, (#[trigger] v.entries[i]).tag)
                ==> v.entries[i].name == name,
    ensures
        merged_all(v, removals(v.entries, name)) == without(v, |e: EntryView| e.name == name),
{
    removals_merge(v, v.entries.len() as int, name);
    assert(v.entries.take(v.entries.len() as int) =~= v.entries);
    let drop = |e: EntryView| e.name == name;
    let keep = |e: EntryView| !drop(e);
    let keep2 = |e: EntryView| !tag_in(v.entries, name, e.tag);
    assert forall|i: int| 0 <= i < v.entries.len() implies keep(#[trigger] v.entries[i]) == keep2(
        v.entries[i],
    ) by {
        if v.entries[i].name == name {
            assert(tag_in(v.entries, name, v.entries[i].tag));
        }
    }
    filter_agrees(v.entries, keep, keep2);
    assert(merged_all(v, removals(v.entries, name)).entries == v.entries.filter(keep2));
    assert(without(v, drop).entries == v.entries.filter(keep));
    assert forall|t: u128|
        dropped_tags(v.entries, drop).contains(t) <==> tag_in(v.entries, name, t) by {
        if tag_in(v.entries, name, t) {
            let i = choose|i: int|
                0 <= i < v.entries.len() && (#[trigger] v.entries[i]).name == name
                    && v.entries[i].tag == t;
            assert(drop(v.entries[i]));
        }
    }
    assert(merged_all(v, removals(v.entries, name)).tombstones =~= without(v, drop).tombstones);
}

/// Whether some registration of the name has the tag.
spec fn tag_in(entries: Seq<EntryView>, name: Seq<char>, tag: u128) -> bool {
    has_tag(entries, name, tag)
}

proof fn filter_agrees(
    s: Seq<EntryView>,
    f: spec_fn(EntryView) -> bool,
    g: spec_fn(EntryView) -> bool,
)
    requires
        forall|i: int| 0 <= i < s.len() ==> f(#[trigger] s[i]) == g(s[i]),
    ensures
        s.filter(f) == s.filter(g),
    decreases s.len(),
{
    reveal(Seq::filter);
    if s.len() > 0 {
        let front = s.drop_last();
        assert forall|i: int| 0 <= i < front.len() implies f(#[trigger] front[i]) == g(
            front[i],
        ) by {
            assert(front[i] == s[i]);
        }
        filter_agrees(front, f, g);
        assert(s[s.len() - 1] == s.last());
    }
}

proof fn filter_twice(
    s: Seq<EntryView>,
    f: spec_fn(EntryView) -> bool,
    g: spec_fn(EntryView) -> bool,
    h: spec_fn(EntryView) -> bool,
)
    requires
        forall|e: EntryView| #[trigger] h(e) == (f(e) && g(e)),
    ensures
        s.filter(f).filter(g) == s.filter(h),
    decreases s.len(),
{
    reveal(Seq::filter);
    if s.len() > 0 {
        let front = s.drop_last();
        filter_twice(front, f, g, h);
        let e = s.last();
        assert(h(e) == (f(e) && g(e)));
        if f(e) {
            let t = front.filter(f).push(e);
            assert(s.filter(f) == t);
            assert(t.drop_last() =~= front.filter(f));
            assert(t.last() == e);
        }
    }
}

/// What following the removals of a name's registrations among the first `n` leads to.
proof fn removals_merge(v: RegistryView, n: int, name: Seq<char>)
    requires
        0 <= n <= v.entries.len(),
    ensures
        ({
            let seen = v.entries.take(n);
            let r = merged_all(v, removals(seen, name));
            &&& r.entries == v.entries.filter(
                |e: EntryView| !tag_in(seen, name, e.tag),
            )
            &&& forall|t: u128| #[trigger]
                r.tombstones.contains(t) <==> (v.tombstones.contains(t) || tag_in(seen, name, t))
        }),
    decreases n,
{
    let seen = v.entries.take(n);
    let keep = |e: EntryView| !tag_in(seen, name, e.tag);
    if n == 0 {
        assert(seen =~= Seq::empty());
        filter_keeps_all(v.entries, keep);
    } else {
        let front = v.entries.take(n - 1);
        let keep0 = |e: EntryView| !tag_in(front, name, e.tag);
        removals_merge(v, n - 1, name);
        assert(seen.drop_last() =~= front);
        let x = seen.last();
        let r0 = merged_all(v, removals(front, name));
        let r = merged_all(v, removals(seen, name));
        assert forall|t: u128| #[trigger]
            tag_in(seen, name, t) <==> (tag_in(front, name, t) || (x.name == name && x.tag == t)) by {
            if tag_in(front, name, t) {
                let i = choose|i: int|
                    0 <= i < front.len() && (#[trigger] front[i]).name == name && front[i].tag == t;
                assert(seen[i] == front[i]);
            }
            assert(seen[n - 1] == x);
            if tag_in(seen, name, t) {
                let i = choose|i: int|
                    0 <= i < seen.len() && (#[trigger] seen[i]).name == name && seen[i].tag == t;
                if i < n - 1 {
                    assert(front[i] == seen[i]);
                }
            }
        }
        if x.name == name {
            let d = DeltaView::Remove { name, tag: x.tag };
            let all = removals(seen, name);
            assert(all.drop_last() =~= removals(front, name));
            assert(all.last() == d);
            assert(r == merged(r0, d));
            let one = |e: EntryView| e.tag != x.tag;
            filter_twice(v.entries, keep0, one, keep);
        } else {
            filter_agrees(v.entries, keep0, keep);
        }
    }
}

/// What a change removed stays out: after changes of which one removes a tag, the tag is removed
/// and no registration has it.
pub proof fn removed_tags_stay_out(v: RegistryView, deltas: Seq<DeltaView>, tag: u128)
    requires
        removes(deltas, tag),
    ensures
        merged_all(v, deltas).tombstones.contains(tag),
        forall|i: int|
            0 <= i < merged_all(v, deltas).entries.len() ==> (#[trigger] merged_all(
                v,
                deltas,
            ).entries[i]).tag != tag,
    decreases deltas.len(),
{
    let front = deltas.drop_last();
    let d = deltas.last();
    let r0 = merged_all(v, front);
    let r = merged_all(v, deltas);
    step_removes(deltas, tag);
    if removes(front, tag) {
        removed_tags_stay_out(v, front, tag);
    }
    match d {
        DeltaView::Add(e) => {},
        DeltaView::Remove { name, tag: gone } => {
            let keep = |e: EntryView| e.tag != gone;
            assert forall|i: int| 0 <= i < r.entries.len() implies (#[trigger] r.entries[i]).tag
                != tag by {
                filter_members(r0.entries, keep, r.entries[i]);
                assert(r.entries.contains(r.entries[i]));
                let j = choose|j: int| 0 <= j < r0.entries.len() && r0.entries[j] == r.entries[i];
                assert(r0.entries[j].tag == r.entries[i].tag);
            }
        },
    }
}

proof fn sync_adds_and_removes(v: RegistryView, deltas: Seq<DeltaView>, e: EntryView, tag: u128)
    requires
        full_sync(v, deltas),
    ensures
        adds(deltas, e) <==> v.entries.contains(e),
        removes(deltas, tag) <==> v.tombstones.contains(tag),
{
    if v.entries.contains(e) {
        let i = choose|i: int| 0 <= i < v.entries.len() && v.entries[i] == e;
        assert(deltas[i] == DeltaView::Add(e));
    }
    if adds(deltas, e) {
        let i = choose|i: int| 0 <= i < deltas.len() && #[trigger] deltas[i] == DeltaView::Add(e);
        assert(v.entries[i] == e);
    }
    if v.tombstones.contains(tag) {
        let i = choose|i: int|
            v.entries.len() <= i < deltas.len() && (#[trigger] deltas[i]).tag() == tag;
        assert(deltas[i] is Remove);
    }
    if removes(deltas, tag) {
        let i = choose|i: int|
            0 <= i < deltas.len() && (#[trigger] deltas[i]) is Remove && deltas[i].tag() == tag;
        if i < v.entries.len() {
            assert(deltas[i] is Add);
        }
    }
}

/// A full sync brings every removal over: whatever the other registry held, no tag that was
/// removed here is left on a registration there, nor can it come back.
pub proof fn full_sync_brings_removals(v: RegistryView, w: RegistryView, deltas: Seq<DeltaView>)
    requires
        full_sync(v, deltas),
    ensures
        v.tombstones.subset_of(merged_all(w, deltas).tombstones),
        forall|i: int|
            0 <= i < merged_all(w, deltas).entries.len() ==> !v.tombstones.contains(
                (#[trigger] merged_all(w, deltas).entries[i]).tag,
            ),
{
    let r = merged_all(w, deltas);
    let e = arbitrary::<EntryView>();
    assert forall|t: u128| v.tombstones.contains(t) implies r.tombstones.contains(t) by {
        sync_adds_and_removes(v, deltas, e, t);
        removed_tags_stay_out(w, deltas, t);
    }
    assert forall|i: int| 0 <= i < r.entries.len() implies !v.tombstones.contains(
        (#[trigger] r.entries[i]).tag,
    ) by {
        let t = r.entries[i].tag;
        if v.tombstones.contains(t) {
            sync_adds_and_removes(v, deltas, e, t);
            removed_tags_stay_out(w, deltas, t);
        }
    }
}

/// Two registries that take each other's full sync hold the same from then on.
pub proof fn full_syncs_converge(
    v: RegistryView,
    w: RegistryView,
    from_v: Seq<DeltaView>,
    from_w: Seq<DeltaView>,
)
    requires
        full_sync(v, from_v),
        full_sync(w, from_w),
        none_resurrected(v),
        none_resurrected(w),
        consistent(v, from_w),
        consistent(w, from_v),
    ensures
        same_content(merged_all(v, from_w), merged_all(w, from_v)),
{
    let x = merged_all(v, from_w);
    let y = merged_all(w, from_v);
    assert forall|e: EntryView| #[trigger] x.entries.contains(e) <==> y.entries.contains(e) by {
        merging_is_order_free(v, from_w, e, e.tag);
        merging_is_order_free(w, from_v, e, e.tag);
        sync_adds_and_removes(v, from_v, e, e.tag);
        sync_adds_and_removes(w, from_w, e, e.tag);
    }
    assert forall|t: u128| x.tombstones.contains(t) <==> y.tombstones.contains(t) by {
        let e = arbitrary::<EntryView>();
        merging_is_order_free(v, from_w, e, t);
        merging_is_order_free(w, from_v, e, t);
        sync_adds_and_removes(v, from_v, e, t);
        sync_adds_and_removes(w, from_w, e, t);
    }
    assert(x.tombstones =~= y.tombstones);
}

/// A registry that only holds what another holds or has removed is brought by a full sync to
/// hold what the other holds.
pub proof fn full_sync_catches_up(v: RegistryView, w: RegistryView, deltas: Seq<DeltaView>)
    requires
        full_sync(v, deltas),
        none_resurrected(v),
        consistent(w, deltas),
        w.tombstones.subset_of(v.tombstones),
        forall|e: EntryView| #[trigger]
            w.entries.contains(e) ==> v.entries.contains(e) || v.tombstones.contains(e.tag),
    ensures
        same_content(merged_all(w, deltas), v),
{
    let r = merged_all(w, deltas);
    assert forall|e: EntryView| #[trigger] r.entries.contains(e) <==> v.entries.contains(e) by {
        merging_is_order_free(w, deltas, e, e.tag);
        sync_adds_and_removes(v, deltas, e, e.tag);
    }
    assert forall|t: u128| r.tombstones.contains(t) <==> v.tombstones.contains(t) by {
        let e = arbitrary::<EntryView>();
        merging_is_order_free(w, deltas, e, t);
        sync_adds_and_removes(v, deltas, e, t);
    }
    assert(r.tombstones =~= v.tombstones);
}

/// A full sync makes an empty registry a copy, where no tag occurs twice under a name and no
/// registration has a removed tag.
pub proof fn full_sync_copies(v: RegistryView, deltas: Seq<DeltaView>)
    requires
        full_sync(v, deltas),
        forall|i: int, j: int|
            0 <= i < j < v.entries.len() ==> !((#[trigger] v.entries[i]).name == (
            #[trigger] v.entries[j]).name && v.entries[i].tag == v.entries[j].tag),
        none_resurrected(v),
    ensures
        merged_all(empty_registry(), deltas).entries == v.entries,
        merged_all(empty_registry(), deltas).tombstones == v.tombstones,
{
    sync_prefix(v, deltas, deltas.len() as int);
    assert(deltas.take(deltas.len() as int) =~= deltas);
    let r = merged_all(empty_registry(), deltas);
    assert(v.entries.take(v.entries.len() as int) =~= v.entries);
    assert(r.tombstones =~= v.tombstones) by {
        assert forall|t: u128| v.tombstones.contains(t) implies r.tombstones.contains(t) by {
            let i = choose|i: int|
                v.entries.len() <= i < deltas.len() && (#[trigger] deltas[i]).tag() == t;
            assert(r.tombstones.contains(deltas[i].tag()));
        }
        assert forall|t: u128| r.tombstones.contains(t) implies v.tombstones.contains(t) by {}
    }
}

proof fn sync_prefix(v: RegistryView, deltas: Seq<DeltaView>, k: int)
    requires
        full_sync(v, deltas),
        forall|i: int, j: int|
            0 <= i < j < v.entries.len() ==> !((#[trigger] v.entries[i]).name == (
            #[trigger] v.entries[j]).name && v.entries[i].tag == v.entries[j].tag),
        none_resurrected(v),
        0 <= k <= deltas.len(),
    ensures
        ({
            let r = merged_all(empty_registry(), deltas.take(k));
            let n = v.entries.len();
            &&& r.entries == v.entries.take(
                if k < n {
                    k
                } else {
                    n as int
                },
            )
            &&& forall|i: int|
                n <= i < k ==> r.tombstones.contains((#[trigger] deltas[i]).tag())
            &&& forall|t: u128| #[trigger] r.tombstones.contains(t) ==> v.tombstones.contains(t)
            &&& k <= n ==> r.tombstones == Set::<u128>::empty()
        }),
    decreases k,
{
    let n = v.entries.len();
    if k == 0 {
        assert(deltas.take(0) =~= Seq::empty());
        assert(v.entries.take(0) =~= Seq::empty());
    } else {
        sync_prefix(v, deltas, k - 1);
        assert(deltas.take(k).drop_last() =~= deltas.take(k - 1));
        assert(deltas.take(k).last() == deltas[k - 1]);
        let r0 = merged_all(empty_registry(), deltas.take(k - 1));
        let r = merged_all(empty_registry(), deltas.take(k));
        if k <= n {
            let e = v.entries[k - 1];
            assert(deltas[k - 1] == DeltaView::Add(e));
            assert(!has_tag(r0.entries, e.name, e.tag)) by {
                if has_tag(r0.entries, e.name, e.tag) {
                    let i = choose|i: int|
                        0 <= i < r0.entries.len() && (#[trigger] r0.entries[i]).name == e.name
                            && r0.entries[i].tag == e.tag;
                    assert(r0.entries[i] == v.entries[i]);
                    assert(v.entries[k - 1] == e);
                }
            }
            assert(v.entries.take(k) =~= v.entries.take(k - 1).push(e));
        } else {
            let t = deltas[k - 1].tag();
            let keep = |e: EntryView| e.tag != t;
            assert(v.entries.take(n as int) =~= v.entries);
            assert forall|i: int| 0 <= i < v.entries.len() implies keep(#[trigger] v.entries[i]) by {}
            filter_keeps_all(v.entries, keep);
        }
    }
}

} // verus!
