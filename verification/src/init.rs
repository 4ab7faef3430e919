//! The run-once initializer.
//!
//! A two-state machine that bootstraps the world through the ordinary
//! scheduling pipeline: on its first invocation — whatever the tick event —
//! it transitions to `Initialized` and runs its setup script exactly once,
//! creating one fresh entity per script entry and writing the entry's
//! component values to it through the direct component-set insertion path.
//! Every later invocation finds it `Initialized` and is a no-op. The
//! transition happens before the script runs, so even a re-entrant tick
//! could not run the script twice.

use vstd::prelude::*;

use crate::components::{ComponentValue, EntityId, last_of_kind};
use crate::store::{
    World, WorldView, lemma_with_new_entity_wf, lemma_with_writes_comp, lemma_with_writes_count,
    lemma_with_writes_wf,
};
use crate::tick::TickContext;

verus! {

/// The one-shot initializer: either still holding its setup script, or spent.
pub enum Initializer {
    /// The script is pending: for each entry, one entity will be created and
    /// the entry's component values written to it, in order.
    Uninitialized(Vec<Vec<ComponentValue>>),
    Initialized,
}

/// The abstract content of a setup script: each entry's write sequence.
pub open spec fn script_views(script: Seq<Vec<ComponentValue>>) -> Seq<Seq<ComponentValue>> {
    script.map_values(|entry: Vec<ComponentValue>| entry@)
}

/// The view after the setup script has run: one fresh entity per entry,
/// carrying the entry's writes, applied entry by entry.
pub open spec fn spec_setup(v: WorldView, script: Seq<Seq<ComponentValue>>) -> WorldView
    decreases script.len(),
{
    if script.len() == 0 {
        v
    } else {
        spec_setup(v, script.drop_last()).with_new_entity().with_writes(
            v.entity_count() + script.len() - 1,
            script.last(),
        )
    }
}

/// Running the script adds exactly one entity per entry.
pub proof fn lemma_spec_setup_count(v: WorldView, script: Seq<Seq<ComponentValue>>)
    ensures
        spec_setup(v, script).entity_count() == v.entity_count() + script.len(),
    decreases script.len(),
{
    if script.len() > 0 {
        lemma_spec_setup_count(v, script.drop_last());
        lemma_with_writes_count(
            spec_setup(v, script.drop_last()).with_new_entity(),
            v.entity_count() + script.len() - 1,
            script.last(),
        );
    }
}

/// Running the script preserves kind consistency.
pub proof fn lemma_spec_setup_wf(v: WorldView, script: Seq<Seq<ComponentValue>>)
    requires
        v.wf(),
    ensures
        spec_setup(v, script).wf(),
    decreases script.len(),
{
    if script.len() > 0 {
        lemma_spec_setup_wf(v, script.drop_last());
        lemma_spec_setup_count(v, script.drop_last());
        lemma_with_new_entity_wf(spec_setup(v, script.drop_last()));
        lemma_with_writes_wf(
            spec_setup(v, script.drop_last()).with_new_entity(),
            v.entity_count() + script.len() - 1,
            script.last(),
        );
    }
}

/// What the bootstrap produces, slot by slot: pre-existing entities are
/// untouched, and the fresh entity of entry `g` holds, for each kind,
/// exactly the entry's surviving write of that kind.
pub proof fn lemma_spec_setup_comp(
    v: WorldView,
    script: Seq<Seq<ComponentValue>>,
    i: int,
    k: crate::components::ComponentKind,
)
    ensures
        0 <= i < v.entity_count() ==> spec_setup(v, script).comp(i, k) == v.comp(i, k),
        v.entity_count() <= i < v.entity_count() + script.len() ==> spec_setup(v, script).comp(i, k)
            == last_of_kind(script[i - v.entity_count()], k),
    decreases script.len(),
{
    if script.len() > 0 {
        let prev = spec_setup(v, script.drop_last());
        let grown = prev.with_new_entity();
        let e = v.entity_count() + script.len() - 1;
        lemma_spec_setup_comp(v, script.drop_last(), i, k);
        lemma_spec_setup_count(v, script.drop_last());
        lemma_with_writes_comp(grown, e as int, script.last(), i, k);
        if v.entity_count() <= i < e {
            assert(grown.comp(i, k) == prev.comp(i, k));
            assert(script.drop_last()[i - v.entity_count()] == script[i - v.entity_count()]);
        }
        if i == e {
            assert(grown.comp(i, k) is None);
        }
    }
}

impl Initializer {
    /// A fresh initializer holding its setup script.
    pub fn new(script: Vec<Vec<ComponentValue>>) -> (g: Initializer)
        ensures
            g == Initializer::Uninitialized(script),
    {
        Initializer::Uninitialized(script)
    }

    /// One invocation. The first — whatever the tick context — transitions
    /// to `Initialized` and runs the script exactly once; every later one
    /// finds the machine spent and changes nothing.
    pub fn update_all(&mut self, w: &mut World, _ctx: &TickContext)
        requires
            old(w).wf(),
        ensures
            final(w).wf(),
            *final(self) is Initialized,
            (*old(self)) matches Initializer::Uninitialized(script) ==> final(w)@ == spec_setup(
                old(w)@,
                script_views(script@),
            ),
            (*old(self)) is Initialized ==> *final(w) == *old(w),
    {
        let mut taken = Initializer::Initialized;
        core::mem::swap(self, &mut taken);
        match taken {
            Initializer::Uninitialized(script) => {
                run_setup(w, &script);
            },
            Initializer::Initialized => {},
        }
    }
}

/// Runs the setup script: per entry, one fresh entity, then the entry's
/// writes through the component-set insertion path.
fn run_setup(w: &mut World, script: &Vec<Vec<ComponentValue>>)
    requires
        old(w).wf(),
    ensures
        final(w).wf(),
        final(w)@ == spec_setup(old(w)@, script_views(script@)),
{
    let n = script.len();
    for g in 0..n
        invariant
            n == script.len(),
            w.wf(),
            w@ == spec_setup(old(w)@, script_views(script@.take(g as int))),
            w@.entity_count() == old(w)@.entity_count() + g,
    {
        proof {
            lemma_spec_setup_count(old(w)@, script_views(script@.take(g as int)));
        }
        let e = w.create_entity();
        w.insert_component_set(e, &script[g]);
        proof {
            let sv_next = script_views(script@.take(g + 1));
            assert(sv_next.drop_last() =~= script_views(script@.take(g as int)));
            assert(sv_next.last() == script@[g as int]@);
            assert(e.idx as int == old(w)@.entity_count() + sv_next.len() - 1);
            lemma_with_writes_count(
                spec_setup(old(w)@, script_views(script@.take(g as int))).with_new_entity(),
                e.idx as int,
                script@[g as int]@,
            );
        }
    }
    proof {
        assert(script_views(script@.take(n as int)) =~= script_views(script@));
    }
}

} // verus!
