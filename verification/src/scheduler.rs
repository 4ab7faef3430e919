//! The system runner and scheduler.
//!
//! The scheduler holds the ordered system list. Once per external tick
//! event it drives every system through one pass: the shape matcher builds
//! the system's batch from the current committed state, the system's pure
//! transform produces its patches, and the commit buffer applies them —
//! all before the next system runs, so each system reads exactly the state
//! its predecessors committed. Draw calls issued by the drawing pass are
//! collected in issue order and handed back to the caller's backend.

use vstd::prelude::*;

use crate::commit::{
    commit, lemma_patched_comp_frame, lemma_patched_comp_unique, lemma_spec_commit_comp,
    patch_views, spec_commit,
};
use crate::components::{ComponentKind, ComponentValue, EntityId, last_of_kind};
use crate::init::{Initializer, script_views, spec_setup};
use crate::movement::{
    MovementSystem, accel_or_zero, moved_position, moved_velocity, movement_shape_view,
    movement_writes, world_accel_or_zero,
};
use crate::render::{
    DrawCommand, RenderSystem, Renderable, render_shape_view, sorted_by_depth,
    spec_camera, spec_draws, spec_offset, spec_renderables,
};
use crate::shape::{MatchItem, lemma_match_upto_props, match_shape, spec_match};
use crate::store::{World, WorldView, lemma_world_view_wf};
use crate::tick::{TickContext, TickEvent};

verus! {

/// One schedulable system: the run-once bootstrap, the kinematics pass, or the
/// drawing pass.
pub enum SystemSlot {
    Init(Initializer),
    Movement,
    Render,
}

/// The patch list of one movement pass over a matched batch.
pub open spec fn movement_patch_list(batch: Seq<MatchItem>, dt: i64) -> Seq<
    (EntityId, Seq<ComponentValue>),
> {
    batch.map_values(|it: MatchItem| (it.entity, movement_writes(it.bundle.payload(), dt)))
}

/// The world after one system's pass and commit, from a committed state.
pub open spec fn spec_slot_world(v: WorldView, slot: SystemSlot, ctx: TickContext) -> WorldView {
    match slot {
        SystemSlot::Init(g) => match g {
            Initializer::Uninitialized(script) => spec_setup(v, script_views(script@)),
            Initializer::Initialized => v,
        },
        SystemSlot::Movement => match ctx.event {
            TickEvent::Update { dt } => spec_commit(
                v,
                movement_patch_list(spec_match(v, movement_shape_view()), dt),
            ),
            _ => v,
        },
        SystemSlot::Render => v,
    }
}

/// The slot after one tick: a bootstrap is spent, the stateless passes are
/// unchanged.
pub open spec fn spec_slot_after(slot: SystemSlot) -> SystemSlot {
    match slot {
        SystemSlot::Init(_) => SystemSlot::Init(Initializer::Initialized),
        SystemSlot::Movement => SystemSlot::Movement,
        SystemSlot::Render => SystemSlot::Render,
    }
}

/// The world after the whole system list has run, in declared order, each
/// system reading the state the previous one committed.
pub open spec fn spec_tick_world(v: WorldView, slots: Seq<SystemSlot>, ctx: TickContext) -> WorldView
    decreases slots.len(),
{
    if slots.len() == 0 {
        v
    } else {
        spec_slot_world(spec_tick_world(v, slots.drop_last(), ctx), slots.last(), ctx)
    }
}

/// The draw commands one slot may issue from a committed state: only the
/// drawing pass issues any, and only on a render event — one clear, then
/// the matched drawables in some depth-ascending arrangement, shifted by
/// the camera offset.
pub open spec fn slot_cmds_ok(
    v: WorldView,
    slot: SystemSlot,
    ctx: TickContext,
    cmds: Seq<DrawCommand>,
) -> bool {
    match slot {
        SystemSlot::Render => match ctx.event {
            TickEvent::Render { width, height } => exists|s: Seq<Renderable>|
                {
                    &&& #[trigger] sorted_by_depth(s)
                    &&& s.to_multiset() == spec_renderables(
                        spec_match(v, render_shape_view()),
                    ).to_multiset()
                    &&& cmds == seq![DrawCommand::Clear] + spec_draws(
                        s,
                        spec_offset(
                            spec_camera(spec_match(v, render_shape_view())),
                            width,
                            height,
                        ).0,
                        spec_offset(
                            spec_camera(spec_match(v, render_shape_view())),
                            width,
                            height,
                        ).1,
                    )
                },
            _ => cmds.len() == 0,
        },
        _ => cmds.len() == 0,
    }
}


/// The kinematics law, slot by slot: on an update tick, every entity that
/// holds both a position and a velocity ends with exactly the integrated
/// position (from the pre-update velocity) and the integrated velocity
/// (from its acceleration, defaulting to zero), and no other slot of any
/// entity changes.
pub proof fn lemma_movement_tick_comp(v: WorldView, dt: i64, i: int, k: ComponentKind)
    requires
        v.wf(),
        v.entity_count() <= usize::MAX,
    ensures
        ({
            let out = spec_slot_world(
                v,
                SystemSlot::Movement,
                TickContext { event: TickEvent::Update { dt } },
            );
            let moves = v.has(i, ComponentKind::Position) && v.has(i, ComponentKind::Velocity);
            &&& (moves && k == ComponentKind::Position) ==> out.comp(i, k) == Some(
                ComponentValue::Position(
                    moved_position(v.position_at(i)->Some_0, v.velocity_at(i)->Some_0, dt),
                ),
            )
            &&& (moves && k == ComponentKind::Velocity) ==> out.comp(i, k) == Some(
                ComponentValue::Velocity(
                    moved_velocity(v.velocity_at(i)->Some_0, world_accel_or_zero(v, i), dt),
                ),
            )
            &&& (!moves || (k != ComponentKind::Position && k != ComponentKind::Velocity))
                ==> out.comp(i, k) == v.comp(i, k)
        }),
{
    let sv = movement_shape_view();
    let batch = spec_match(v, sv);
    let ps = movement_patch_list(batch, dt);
    let c = sv->ConjV_0;
    let moves = v.has(i, ComponentKind::Position) && v.has(i, ComponentKind::Velocity);
    lemma_match_upto_props(v, sv, v.entity_count() as int);
    assert(ps.len() == batch.len());
    assert(forall|j: int|
        0 <= j < ps.len() ==> #[trigger] ps[j] == (
            batch[j].entity,
            movement_writes(batch[j].bundle.payload(), dt),
        ));
    assert(forall|j: int| 0 <= j < ps.len() ==> (#[trigger] ps[j]).0.idx < v.entity_count());
    lemma_spec_commit_comp(v, ps, i, k);
    assert(c.required[0] == ComponentKind::Position);
    assert(c.required[1] == ComponentKind::Velocity);
    assert(c.optional[0] == ComponentKind::Acceleration);
    assert(forall|e: int|
        #[trigger] c.satisfied_by(v, e) ==> v.has(e, ComponentKind::Position) && v.has(
            e,
            ComponentKind::Velocity,
        ));
    if moves && 0 <= i < v.entity_count() {
        assert(c.satisfied_by(v, i)) by {
            assert forall|j: int| 0 <= j < c.required.len() implies v.has(
                i,
                #[trigger] c.required[j],
            ) by {
                if j == 0 {
                    assert(c.required[0] == ComponentKind::Position);
                } else {
                    assert(c.required[1] == ComponentKind::Velocity);
                }
            }
        }
        assert(sv.accepts(v, i));
        let t = choose|t: int|
            0 <= t < batch.len() && (#[trigger] batch[t]).entity.idx == i;
        assert(forall|a: int, b: int| 0 <= a < b < ps.len() ==> ps[a].0.idx != ps[b].0.idx);
        lemma_patched_comp_unique(v, ps, t, i, k);
        assert(batch[t].bundle == sv.item_for(v, i));
        let b = batch[t].bundle.payload();
        assert(b == c.spec_bundle(v, i));
        assert(c.mentions(ComponentKind::Position)) by {
            assert(c.required.contains(ComponentKind::Position));
        }
        assert(c.mentions(ComponentKind::Velocity)) by {
            assert(c.required.contains(ComponentKind::Velocity));
        }
        assert(c.mentions(ComponentKind::Acceleration)) by {
            assert(c.optional.contains(ComponentKind::Acceleration));
        }
        assert(v.comp(i, ComponentKind::Position)->Some_0.kind() == ComponentKind::Position);
        assert(v.comp(i, ComponentKind::Velocity)->Some_0.kind() == ComponentKind::Velocity);
        assert(b.position == v.position_at(i));
        assert(b.velocity == v.velocity_at(i));
        assert(b.acceleration == v.acceleration_at(i));
        assert(b.position is Some && b.velocity is Some);
        assert(accel_or_zero(b) == world_accel_or_zero(v, i));
        let ws = movement_writes(b, dt);
        let new_p = ComponentValue::Position(
            moved_position(v.position_at(i)->Some_0, v.velocity_at(i)->Some_0, dt),
        );
        let new_v = ComponentValue::Velocity(
            moved_velocity(v.velocity_at(i)->Some_0, world_accel_or_zero(v, i), dt),
        );
        assert(ws.len() == 2 && ws[0] == new_p && ws[1] == new_v);
        assert(ws.last() == new_v);
        assert(ws.drop_last() =~= seq![new_p]);
        assert(seq![new_p].last() == new_p);
        assert(seq![new_p].drop_last() =~= Seq::<ComponentValue>::empty());
        assert(last_of_kind(ws, ComponentKind::Velocity) == Some(new_v));
        assert(last_of_kind(ws, ComponentKind::Position) == Some(new_p));
        if k != ComponentKind::Position && k != ComponentKind::Velocity {
            assert(last_of_kind(Seq::<ComponentValue>::empty(), k) is None);
            assert(last_of_kind(seq![new_p], k) is None);
            assert(last_of_kind(ws, k) is None);
        }
    } else {
        assert forall|j: int| 0 <= j < ps.len() implies (#[trigger] ps[j]).0.idx != i by {
            if ps[j].0.idx == i {
                assert(sv.accepts(v, batch[j].entity.idx as int));
                assert(c.satisfied_by(v, i));
            }
        }
        lemma_patched_comp_frame(v, ps, i, k);
    }
}

/// The scheduler: the ordered list of systems, statically wired at startup.
pub struct Scheduler {
    pub systems: Vec<SystemSlot>,
}

impl Scheduler {
    /// A scheduler over the given system list.
    pub fn new(systems: Vec<SystemSlot>) -> (s: Scheduler)
        ensures
            s.systems@ == systems@,
    {
        Scheduler { systems }
    }

    /// One tick: every system runs once, in declared order, each committing
    /// before the next starts. The result is the tick's draw calls, in
    /// issue order.
    pub fn tick(&mut self, w: &mut World, ctx: &TickContext) -> (cmds: Vec<DrawCommand>)
        requires
            old(w).wf(),
        ensures
            final(w).wf(),
            final(w)@ == spec_tick_world(old(w)@, old(self).systems@, *ctx),
            final(self).systems@.len() == old(self).systems@.len(),
            forall|j: int|
                0 <= j < old(self).systems@.len() ==> final(self).systems@[j] == spec_slot_after(
                    #[trigger] old(self).systems@[j],
                ),
            exists|segs: Seq<Seq<DrawCommand>>|
                {
                    &&& segs.len() == old(self).systems@.len()
                    &&& cmds@ == #[trigger] segs.flatten()
                    &&& forall|j: int|
                        0 <= j < segs.len() ==> slot_cmds_ok(
                            spec_tick_world(old(w)@, old(self).systems@.take(j), *ctx),
                            old(self).systems@[j],
                            *ctx,
                            #[trigger] segs[j],
                        )
                },
    {
        let mut cmds: Vec<DrawCommand> = Vec::new();
        let ghost mut segs: Seq<Seq<DrawCommand>> = Seq::empty();
        let n = self.systems.len();
        proof {
            assert(Seq::<Seq<DrawCommand>>::empty().flatten() =~= Seq::<DrawCommand>::empty());
        }
        for j in 0..n
            invariant
                n == self.systems.len(),
                n == old(self).systems@.len(),
                w.wf(),
                w@ == spec_tick_world(old(w)@, old(self).systems@.take(j as int), *ctx),
                forall|t: int|
                    0 <= t < j ==> self.systems@[t] == spec_slot_after(
                        #[trigger] old(self).systems@[t],
                    ),
                forall|t: int| j <= t < n ==> self.systems@[t] == #[trigger] old(self).systems@[t],
                segs.len() == j,
                cmds@ == segs.flatten(),
                forall|t: int|
                    0 <= t < j ==> slot_cmds_ok(
                        spec_tick_world(old(w)@, old(self).systems@.take(t), *ctx),
                        old(self).systems@[t],
                        *ctx,
                        #[trigger] segs[t],
                    ),
        {
            let ghost v0 = w@;
            let ghost slots0 = old(self).systems@;
            proof {
                assert(slots0.take(j + 1).drop_last() =~= slots0.take(j as int));
                assert(slots0.take(j + 1).last() == slots0[j as int]);
            }
            let slot = &mut self.systems[j];
            match slot {
                SystemSlot::Init(g) => {
                    g.update_all(w, ctx);
                    proof {
                        let segs0 = segs;
                        segs = segs0.push(Seq::empty());
                        segs0.lemma_flatten_push(Seq::empty());
                        assert(w@ == spec_slot_world(v0, slots0[j as int], *ctx));
                    }
                },
                SystemSlot::Movement => {
                    let shape = MovementSystem::shape();
                    let batch = match_shape(w, &shape);
                    proof {
                        lemma_world_view_wf(w);
                        lemma_match_upto_props(
                            v0,
                            movement_shape_view(),
                            v0.entity_count() as int,
                        );
                        assert forall|t: int| 0 <= t < batch@.len() implies {
                            &&& (#[trigger] batch@[t]).bundle.payload().position is Some
                            &&& batch@[t].bundle.payload().velocity is Some
                            &&& batch@[t].entity.idx < v0.entity_count()
                        } by {
                            let e = batch@[t].entity.idx as int;
                            let c = movement_shape_view()->ConjV_0;
                            assert(movement_shape_view().accepts(v0, e));
                            assert(c.satisfied_by(v0, e));
                            assert(c.required[0] == ComponentKind::Position);
                            assert(c.required[1] == ComponentKind::Velocity);
                            assert(v0.has(e, ComponentKind::Position));
                            assert(v0.has(e, ComponentKind::Velocity));
                            assert(batch@[t].bundle == movement_shape_view().item_for(v0, e));
                            assert(c.mentions(ComponentKind::Position)) by {
                                assert(c.required.contains(ComponentKind::Position));
                            }
                            assert(c.mentions(ComponentKind::Velocity)) by {
                                assert(c.required.contains(ComponentKind::Velocity));
                            }
                            assert(v0.comp(e, ComponentKind::Position)->Some_0.kind()
                                == ComponentKind::Position);
                            assert(v0.position_at(e) is Some);
                            assert(v0.comp(e, ComponentKind::Velocity)->Some_0.kind()
                                == ComponentKind::Velocity);
                            assert(v0.velocity_at(e) is Some);
                        }
                    }
                    let out = MovementSystem::update(&batch, ctx);
                    commit(w, &out);
                    proof {
                        match ctx.event {
                            TickEvent::Update { dt } => {
                                assert(patch_views(out@) =~= movement_patch_list(
                                    spec_match(v0, movement_shape_view()),
                                    dt,
                                ));
                            },
                            _ => {
                                assert(patch_views(out@) =~= Seq::<
                                    (EntityId, Seq<ComponentValue>),
                                >::empty());
                                assert(spec_commit(v0, patch_views(out@)) == v0);
                            },
                        }
                        let segs0 = segs;
                        segs = segs0.push(Seq::empty());
                        segs0.lemma_flatten_push(Seq::empty());
                        assert(w@ == spec_slot_world(v0, slots0[j as int], *ctx));
                    }
                },
                SystemSlot::Render => {
                    let shape = RenderSystem::shape();
                    let batch = match_shape(w, &shape);
                    let mut rc = RenderSystem::update(&batch, ctx);
                    proof {
                        let segs0 = segs;
                        segs = segs0.push(rc@);
                        segs0.lemma_flatten_push(rc@);
                        match ctx.event {
                            TickEvent::Render { width, height } => {
                                let s = choose|s: Seq<Renderable>|
                                    {
                                        &&& #[trigger] sorted_by_depth(s)
                                        &&& s.to_multiset() == spec_renderables(
                                            batch@,
                                        ).to_multiset()
                                        &&& rc@ == seq![DrawCommand::Clear] + spec_draws(
                                            s,
                                            spec_offset(spec_camera(batch@), width, height).0,
                                            spec_offset(spec_camera(batch@), width, height).1,
                                        )
                                    };
                                assert(batch@ == spec_match(v0, render_shape_view()));
                                assert(slot_cmds_ok(v0, SystemSlot::Render, *ctx, rc@));
                            },
                            _ => {
                                assert(slot_cmds_ok(v0, SystemSlot::Render, *ctx, rc@));
                            },
                        }
                        assert(w@ == spec_slot_world(v0, slots0[j as int], *ctx));
                    }
                    cmds.append(&mut rc);
                },
            }
            proof {
                assert(w@ == spec_tick_world(old(w)@, slots0.take(j + 1), *ctx));
            }
        }
        proof {
            assert(old(self).systems@.take(n as int) =~= old(self).systems@);
            assert(segs.len() == old(self).systems@.len() && cmds@ == segs.flatten() && (forall|
                j: int,
            |
                0 <= j < segs.len() ==> slot_cmds_ok(
                    spec_tick_world(old(w)@, old(self).systems@.take(j), *ctx),
                    old(self).systems@[j],
                    *ctx,
                    #[trigger] segs[j],
                )));
        }
        cmds
    }
}

} // verus!
