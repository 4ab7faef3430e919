//! The kinematics system.
//!
//! For every entity holding a position and a velocity, one update tick
//! advances the position by the pre-update velocity and the velocity by the
//! acceleration (zero where the entity has none), each scaled by the tick's
//! elapsed time. The pass recognizes only update events; on any other event
//! it yields no patches at all.

use vstd::prelude::*;

use crate::arith::{sat64, sat_add, sat_mul};
use crate::commit::UpdatePatch;
use crate::components::{
    AccelerationComponent, ComponentKind, ComponentValue, EntityId, PositionComponent,
    VelocityComponent,
};
use crate::shape::{ConjView, Conjunction, MatchItem, QueryBundle, Shape, ShapeView};
use crate::tick::{TickContext, TickEvent};

verus! {

/// The kinematics system. It holds no state of its own; its whole behaviour
/// is `MovementSystem::update` over the entities matching its shape.
pub struct MovementSystem;

/// The movement shape: position and velocity required, acceleration
/// optional.
pub open spec fn movement_shape_view() -> ShapeView {
    ShapeView::ConjV(
        ConjView {
            required: seq![ComponentKind::Position, ComponentKind::Velocity],
            optional: seq![ComponentKind::Acceleration],
        },
    )
}

impl MovementSystem {
    /// The data the system needs, as a shape value.
    pub fn shape() -> (s: Shape)
        ensures
            s@ == movement_shape_view(),
    {
        let mut required: Vec<ComponentKind> = Vec::new();
        required.push(ComponentKind::Position);
        required.push(ComponentKind::Velocity);
        let mut optional: Vec<ComponentKind> = Vec::new();
        optional.push(ComponentKind::Acceleration);
        let s = Shape::Conj(Conjunction { required, optional });
        proof {
            assert(s@->ConjV_0.required =~= movement_shape_view()->ConjV_0.required);
            assert(s@->ConjV_0.optional =~= movement_shape_view()->ConjV_0.optional);
        }
        s
    }
}

/// The position after one update: each coordinate advanced by the
/// pre-update velocity times the elapsed time, saturating.
pub open spec fn moved_position(p: PositionComponent, v: VelocityComponent, dt: i64) -> PositionComponent {
    PositionComponent { x: sat64(p.x + sat64(v.x * dt)), y: sat64(p.y + sat64(v.y * dt)) }
}

/// The velocity after one update: each coordinate advanced by the
/// acceleration times the elapsed time, saturating.
pub open spec fn moved_velocity(v: VelocityComponent, a: AccelerationComponent, dt: i64) -> VelocityComponent {
    VelocityComponent { x: sat64(v.x + sat64(a.x * dt)), y: sat64(v.y + sat64(a.y * dt)) }
}

/// The bundle's acceleration, defaulting to zero where the slot is empty.
pub open spec fn accel_or_zero(b: QueryBundle) -> AccelerationComponent {
    match b.acceleration {
        Some(a) => a,
        None => AccelerationComponent { x: 0, y: 0 },
    }
}

/// An entity's committed acceleration, defaulting to zero where it holds
/// none.
pub open spec fn world_accel_or_zero(v: crate::store::WorldView, e: int) -> AccelerationComponent {
    match v.acceleration_at(e) {
        Some(a) => a,
        None => AccelerationComponent { x: 0, y: 0 },
    }
}

/// The write sequence of the movement patch for one matched bundle: the new
/// position, then the new velocity.
pub open spec fn movement_writes(b: QueryBundle, dt: i64) -> Seq<ComponentValue> {
    seq![
        ComponentValue::Position(moved_position(b.position->Some_0, b.velocity->Some_0, dt)),
        ComponentValue::Velocity(moved_velocity(b.velocity->Some_0, accel_or_zero(b), dt)),
    ]
}

impl MovementSystem {
    /// One movement pass over a matched batch. On an update event it yields
    /// exactly one patch per matched entity, in batch order; on every other
    /// event variant the pass recognizes nothing and yields no patches. The
    /// pass only reads its batch — the snapshot — and never the store.
    pub fn update(batch: &Vec<MatchItem>, ctx: &TickContext) -> (out: Vec<(EntityId, UpdatePatch)>)
    requires
        forall|j: int|
            0 <= j < batch@.len() ==> (#[trigger] batch@[j]).bundle.payload().position is Some
                && batch@[j].bundle.payload().velocity is Some,
    ensures
        ctx.event matches TickEvent::Update { dt } ==> {
            &&& out@.len() == batch@.len()
            &&& forall|j: int|
                0 <= j < out@.len() ==> (#[trigger] out@[j]).0 == batch@[j].entity
                    && out@[j].1.writes@ == movement_writes(batch@[j].bundle.payload(), dt)
                    && out@[j].1.signal == 0
        },
        !(ctx.event is Update) ==> out@.len() == 0,
{
    match ctx.event {
        TickEvent::Update { dt } => {
            let mut out: Vec<(EntityId, UpdatePatch)> = Vec::new();
            let n = batch.len();
            for j in 0..n
                invariant
                    n == batch.len(),
                    out@.len() == j,
                    forall|t: int|
                        0 <= t < batch@.len() ==> (#[trigger] batch@[t]).bundle.payload().position
                            is Some && batch@[t].bundle.payload().velocity is Some,
                    forall|t: int|
                        0 <= t < j ==> (#[trigger] out@[t]).0 == batch@[t].entity
                            && out@[t].1.writes@ == movement_writes(
                            batch@[t].bundle.payload(),
                            dt,
                        ) && out@[t].1.signal == 0,
            {
                let b = batch[j].bundle.get_payload();
                let p = b.position.unwrap();
                let v = b.velocity.unwrap();
                let a = match b.acceleration {
                    Some(a) => a,
                    None => AccelerationComponent { x: 0, y: 0 },
                };
                let new_p = PositionComponent {
                    x: sat_add(p.x, sat_mul(v.x, dt)),
                    y: sat_add(p.y, sat_mul(v.y, dt)),
                };
                let new_v = VelocityComponent {
                    x: sat_add(v.x, sat_mul(a.x, dt)),
                    y: sat_add(v.y, sat_mul(a.y, dt)),
                };
                let mut writes: Vec<ComponentValue> = Vec::new();
                writes.push(ComponentValue::Position(new_p));
                writes.push(ComponentValue::Velocity(new_v));
                proof {
                    assert(writes@ =~= movement_writes(batch@[j as int].bundle.payload(), dt));
                }
                out.push((batch[j].entity, UpdatePatch { writes, signal: 0 }));
            }
            out
        },
        _ => Vec::new(),
    }
}

}

} // verus!
