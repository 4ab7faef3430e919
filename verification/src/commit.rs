//! Update patches and the commit buffer.
//!
//! A system's pass produces one `UpdatePatch` per entity it wants to change.
//! The patches are buffered and applied to the store only after the pass's
//! whole traversal has completed — the deferred-commit protocol that keeps
//! every pass reading one consistent snapshot. Patches are applied in order;
//! within one patch, writes apply left to right, so for each (entity, kind)
//! pair the last write wins.

use vstd::prelude::*;

use crate::components::{ComponentKind, ComponentValue, EntityId, last_of_kind};
use crate::store::{
    World, WorldView, lemma_with_writes_comp, lemma_with_writes_count, lemma_with_writes_wf,
};

verus! {

/// One system's proposed update for one entity: the component values to
/// write back, and an auxiliary signal that the commit step ignores
/// (reserved for side-channel signaling between systems).
#[derive(PartialEq, Eq, Debug)]
pub struct UpdatePatch {
    pub writes: Vec<ComponentValue>,
    pub signal: u64,
}

/// The commit-relevant content of a patch list: each target entity with its
/// write sequence. The auxiliary signal does not appear — committing cannot
/// depend on it.
pub open spec fn patch_views(ps: Seq<(EntityId, UpdatePatch)>) -> Seq<(EntityId, Seq<ComponentValue>)> {
    ps.map_values(|p: (EntityId, UpdatePatch)| (p.0, p.1.writes@))
}

/// The view after a patch list is committed: each patch's writes applied to
/// its entity, in patch order.
pub open spec fn spec_commit(v: WorldView, ps: Seq<(EntityId, Seq<ComponentValue>)>) -> WorldView
    decreases ps.len(),
{
    if ps.len() == 0 {
        v
    } else {
        spec_commit(v, ps.drop_last()).with_writes(ps.last().0.idx as int, ps.last().1)
    }
}

/// Committing never creates or destroys entities.
pub proof fn lemma_spec_commit_count(v: WorldView, ps: Seq<(EntityId, Seq<ComponentValue>)>)
    requires
        forall|j: int| 0 <= j < ps.len() ==> (#[trigger] ps[j]).0.idx < v.entity_count(),
    ensures
        spec_commit(v, ps).entity_count() == v.entity_count(),
    decreases ps.len(),
{
    if ps.len() > 0 {
        lemma_spec_commit_count(v, ps.drop_last());
        lemma_with_writes_count(
            spec_commit(v, ps.drop_last()),
            ps.last().0.idx as int,
            ps.last().1,
        );
    }
}

/// Committing preserves kind consistency.
pub proof fn lemma_spec_commit_wf(v: WorldView, ps: Seq<(EntityId, Seq<ComponentValue>)>)
    requires
        v.wf(),
        forall|j: int| 0 <= j < ps.len() ==> (#[trigger] ps[j]).0.idx < v.entity_count(),
    ensures
        spec_commit(v, ps).wf(),
    decreases ps.len(),
{
    if ps.len() > 0 {
        lemma_spec_commit_wf(v, ps.drop_last());
        lemma_spec_commit_count(v, ps.drop_last());
        lemma_with_writes_wf(spec_commit(v, ps.drop_last()), ps.last().0.idx as int, ps.last().1);
    }
}

/// What one committed slot ends up as: the surviving write of the last patch
/// that targets this entity with a write of this kind, and the old committed
/// value where no patch does.
pub open spec fn patched_comp(
    v: WorldView,
    ps: Seq<(EntityId, Seq<ComponentValue>)>,
    i: int,
    k: ComponentKind,
) -> Option<ComponentValue>
    decreases ps.len(),
{
    if ps.len() == 0 {
        v.comp(i, k)
    } else if ps.last().0.idx == i && last_of_kind(ps.last().1, k) is Some {
        last_of_kind(ps.last().1, k)
    } else {
        patched_comp(v, ps.drop_last(), i, k)
    }
}

/// The committed view reads exactly as `patched_comp` says, slot by slot.
pub proof fn lemma_spec_commit_comp(
    v: WorldView,
    ps: Seq<(EntityId, Seq<ComponentValue>)>,
    i: int,
    k: ComponentKind,
)
    requires
        forall|j: int| 0 <= j < ps.len() ==> (#[trigger] ps[j]).0.idx < v.entity_count(),
    ensures
        spec_commit(v, ps).comp(i, k) == patched_comp(v, ps, i, k),
    decreases ps.len(),
{
    if ps.len() > 0 {
        lemma_spec_commit_comp(v, ps.drop_last(), i, k);
        lemma_spec_commit_count(v, ps.drop_last());
        lemma_with_writes_comp(
            spec_commit(v, ps.drop_last()),
            ps.last().0.idx as int,
            ps.last().1,
            i,
            k,
        );
    }
}

/// Frame law: an entity no patch targets keeps every component unchanged
/// through a commit.
pub proof fn lemma_commit_frame(
    v: WorldView,
    ps: Seq<(EntityId, Seq<ComponentValue>)>,
    i: int,
    k: ComponentKind,
)
    requires
        forall|j: int| 0 <= j < ps.len() ==> (#[trigger] ps[j]).0.idx < v.entity_count(),
        forall|j: int| 0 <= j < ps.len() ==> (#[trigger] ps[j]).0.idx != i,
    ensures
        spec_commit(v, ps).comp(i, k) == v.comp(i, k),
    decreases ps.len(),
{
    lemma_spec_commit_comp(v, ps, i, k);
    lemma_patched_comp_frame(v, ps, i, k);
}

/// An entity no patch targets reads back unchanged.
pub proof fn lemma_patched_comp_frame(
    v: WorldView,
    ps: Seq<(EntityId, Seq<ComponentValue>)>,
    i: int,
    k: ComponentKind,
)
    requires
        forall|j: int| 0 <= j < ps.len() ==> (#[trigger] ps[j]).0.idx != i,
    ensures
        patched_comp(v, ps, i, k) == v.comp(i, k),
    decreases ps.len(),
{
    if ps.len() > 0 {
        lemma_patched_comp_frame(v, ps.drop_last(), i, k);
    }
}

/// With pairwise-distinct target entities — the shape of every pass in this
/// engine — each entity's outcome is decided by its own patch alone: its
/// patch's surviving write of each kind, and the old committed value for
/// kinds the patch does not write.
pub proof fn lemma_patched_comp_unique(
    v: WorldView,
    ps: Seq<(EntityId, Seq<ComponentValue>)>,
    t: int,
    i: int,
    k: ComponentKind,
)
    requires
        forall|a: int, b: int| 0 <= a < b < ps.len() ==> ps[a].0.idx != ps[b].0.idx,
        0 <= t < ps.len(),
        ps[t].0.idx == i,
    ensures
        patched_comp(v, ps, i, k) == (if last_of_kind(ps[t].1, k) is Some {
            last_of_kind(ps[t].1, k)
        } else {
            v.comp(i, k)
        }),
    decreases ps.len(),
{
    if t == ps.len() - 1 {
        if last_of_kind(ps[t].1, k) is None {
            assert(forall|j: int|
                0 <= j < ps.drop_last().len() ==> (#[trigger] ps.drop_last()[j]).0.idx != i);
            lemma_patched_comp_frame(v, ps.drop_last(), i, k);
        }
    } else {
        assert(ps.last().0.idx != i);
        assert(forall|a: int, b: int|
            0 <= a < b < ps.drop_last().len() ==> ps.drop_last()[a].0.idx
                != ps.drop_last()[b].0.idx);
        lemma_patched_comp_unique(v, ps.drop_last(), t, i, k);
    }
}

/// Exact-application law: after a pass commits patches for two distinct
/// entities, reads (by the same or the next system) observe exactly the
/// first patch applied to its entity and the second to its entity, and every
/// other entity's components unchanged.
pub proof fn lemma_commit_two_disjoint(
    v: WorldView,
    e1: EntityId,
    ws1: Seq<ComponentValue>,
    e2: EntityId,
    ws2: Seq<ComponentValue>,
    i: int,
    k: ComponentKind,
)
    requires
        e1.idx < v.entity_count(),
        e2.idx < v.entity_count(),
        e1.idx != e2.idx,
    ensures
        ({
            let out = spec_commit(v, seq![(e1, ws1), (e2, ws2)]);
            &&& out.comp(e1.idx as int, k) == (if last_of_kind(ws1, k) is Some {
                last_of_kind(ws1, k)
            } else {
                v.comp(e1.idx as int, k)
            })
            &&& out.comp(e2.idx as int, k) == (if last_of_kind(ws2, k) is Some {
                last_of_kind(ws2, k)
            } else {
                v.comp(e2.idx as int, k)
            })
            &&& (i != e1.idx as int && i != e2.idx as int) ==> out.comp(i, k) == v.comp(i, k)
        }),
{
    let ps = seq![(e1, ws1), (e2, ws2)];
    let s1 = seq![(e1, ws1)];
    assert(ps.last() == (e2, ws2));
    assert(s1.last() == (e1, ws1));
    assert(ps.drop_last() =~= s1);
    assert(s1.drop_last() =~= Seq::<(EntityId, Seq<ComponentValue>)>::empty());
    lemma_spec_commit_comp(v, ps, e1.idx as int, k);
    lemma_spec_commit_comp(v, ps, e2.idx as int, k);
    lemma_spec_commit_comp(v, ps, i, k);
    assert(s1.drop_last().len() == 0);
    assert(patched_comp(v, s1.drop_last(), e1.idx as int, k) == v.comp(e1.idx as int, k));
    assert(patched_comp(v, ps, e1.idx as int, k) == patched_comp(v, s1, e1.idx as int, k));
    assert(patched_comp(v, s1.drop_last(), e2.idx as int, k) == v.comp(e2.idx as int, k));
    assert(patched_comp(v, ps, e2.idx as int, k) == (if last_of_kind(ws2, k) is Some {
        last_of_kind(ws2, k)
    } else {
        patched_comp(v, s1, e2.idx as int, k)
    }));
    if i != e1.idx as int && i != e2.idx as int {
        lemma_patched_comp_frame(v, ps, i, k);
    }
}

/// Applies every patch's writes to the store, patch by patch, in order. The
/// caller (the system runner) invokes this only after the pass's traversal
/// has fully completed.
pub fn commit(w: &mut World, patches: &Vec<(EntityId, UpdatePatch)>)
    requires
        old(w).wf(),
        forall|j: int|
            0 <= j < patches@.len() ==> (#[trigger] patches@[j]).0.idx < old(w)@.entity_count(),
    ensures
        final(w).wf(),
        final(w)@ == spec_commit(old(w)@, patch_views(patches@)),
{
    let n = patches.len();
    for j in 0..n
        invariant
            n == patches.len(),
            w.wf(),
            w@.entity_count() == old(w)@.entity_count(),
            forall|t: int|
                0 <= t < patches@.len() ==> (#[trigger] patches@[t]).0.idx
                    < old(w)@.entity_count(),
            w@ == spec_commit(old(w)@, patch_views(patches@.take(j as int))),
    {
        let e = patches[j].0;
        proof {
            assert(forall|t: int|
                0 <= t < patch_views(patches@.take(j as int)).len() ==> (#[trigger] patch_views(
                    patches@.take(j as int),
                )[t]).0.idx < old(w)@.entity_count());
            lemma_spec_commit_count(old(w)@, patch_views(patches@.take(j as int)));
        }
        w.insert_component_set(e, &patches[j].1.writes);
        proof {
            let pv_next = patch_views(patches@.take(j + 1));
            assert(pv_next.drop_last() =~= patch_views(patches@.take(j as int)));
            assert(pv_next.last() == (patches@[j as int].0, patches@[j as int].1.writes@));
            lemma_with_writes_count(
                spec_commit(old(w)@, patch_views(patches@.take(j as int))),
                e.idx as int,
                patches@[j as int].1.writes@,
            );
        }
    }
    proof {
        assert(patches@.take(n as int) =~= patches@);
    }
}

} // verus!
