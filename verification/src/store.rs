//! The entity registry and the component store.
//!
//! `World` owns one sparse table per component type, all indexed by entity
//! handle. Its abstract state, `WorldView`, is the sequence of per-entity
//! finite maps from component kind to committed value; every contract in the
//! engine is stated over that view.

use vstd::prelude::*;

use crate::components::{
    AccelerationComponent, CameraComponent, ClipComponent, ComponentKind, ComponentValue, EntityId,
    PositionComponent, RenderComponent, ScaleComponent, SettingsComponent, VelocityComponent,
    last_of_kind,
};

verus! {

/// The abstract state of the world: for each live entity, the finite map
/// from component kind to the committed component value.
pub struct WorldView {
    pub entities: Seq<Map<ComponentKind, ComponentValue>>,
}

impl WorldView {
    /// How many entities have been created.
    pub open spec fn entity_count(self) -> nat {
        self.entities.len()
    }

    /// Whether the handle names a live entity.
    pub open spec fn valid(self, e: EntityId) -> bool {
        e.idx < self.entities.len()
    }

    /// The committed component of the given kind for the given entity, if any.
    pub open spec fn comp(self, e: int, k: ComponentKind) -> Option<ComponentValue> {
        if 0 <= e < self.entities.len() && self.entities[e].dom().contains(k) {
            Some(self.entities[e][k])
        } else {
            None
        }
    }

    /// Whether the entity holds a component of the given kind.
    pub open spec fn has(self, e: int, k: ComponentKind) -> bool {
        self.comp(e, k) is Some
    }

    /// The committed position record, if any.
    pub open spec fn position_at(self, e: int) -> Option<PositionComponent> {
        match self.comp(e, ComponentKind::Position) {
            Some(ComponentValue::Position(c)) => Some(c),
            _ => None,
        }
    }

    /// The committed velocity record, if any.
    pub open spec fn velocity_at(self, e: int) -> Option<VelocityComponent> {
        match self.comp(e, ComponentKind::Velocity) {
            Some(ComponentValue::Velocity(c)) => Some(c),
            _ => None,
        }
    }

    /// The committed acceleration record, if any.
    pub open spec fn acceleration_at(self, e: int) -> Option<AccelerationComponent> {
        match self.comp(e, ComponentKind::Acceleration) {
            Some(ComponentValue::Acceleration(c)) => Some(c),
            _ => None,
        }
    }

    /// The committed render record, if any.
    pub open spec fn render_at(self, e: int) -> Option<RenderComponent> {
        match self.comp(e, ComponentKind::Render) {
            Some(ComponentValue::Render(c)) => Some(c),
            _ => None,
        }
    }

    /// The committed clip record, if any.
    pub open spec fn clip_at(self, e: int) -> Option<ClipComponent> {
        match self.comp(e, ComponentKind::Clip) {
            Some(ComponentValue::Clip(c)) => Some(c),
            _ => None,
        }
    }

    /// The committed scale record, if any.
    pub open spec fn scale_at(self, e: int) -> Option<ScaleComponent> {
        match self.comp(e, ComponentKind::Scale) {
            Some(ComponentValue::Scale(c)) => Some(c),
            _ => None,
        }
    }

    /// The committed camera marker, if any.
    pub open spec fn camera_at(self, e: int) -> Option<CameraComponent> {
        match self.comp(e, ComponentKind::Camera) {
            Some(ComponentValue::Camera(c)) => Some(c),
            _ => None,
        }
    }

    /// The committed key-binding record, if any.
    pub open spec fn settings_at(self, e: int) -> Option<SettingsComponent> {
        match self.comp(e, ComponentKind::Settings) {
            Some(ComponentValue::Settings(c)) => Some(c),
            _ => None,
        }
    }

    /// Kind consistency: each map binds a kind only to a value of that kind.
    /// Every view of a concrete `World` has this, and every engine operation
    /// preserves it.
    pub open spec fn wf(self) -> bool {
        forall|e: int, k: ComponentKind|
            (#[trigger] self.comp(e, k)) is Some ==> self.comp(e, k)->Some_0.kind() == k
    }

    /// The view after a fresh entity with no components is added.
    pub open spec fn with_new_entity(self) -> WorldView {
        WorldView { entities: self.entities.push(Map::empty()) }
    }

    /// The view after one component value is written for entity `e`
    /// (insert-or-overwrite in the table of the value's kind).
    pub open spec fn with_comp(self, e: int, v: ComponentValue) -> WorldView {
        WorldView { entities: self.entities.update(e, self.entities[e].insert(v.kind(), v)) }
    }

    /// The view after a whole write sequence is applied to entity `e`, left
    /// to right: the component-set insertion path, and the per-entity half of
    /// patch application.
    pub open spec fn with_writes(self, e: int, ws: Seq<ComponentValue>) -> WorldView
        decreases ws.len(),
    {
        if ws.len() == 0 {
            self
        } else {
            self.with_writes(e, ws.drop_last()).with_comp(e, ws.last())
        }
    }
}

/// Writing one component changes exactly the written slot of the written
/// entity and nothing else.
pub proof fn lemma_with_comp_comp(v: WorldView, e: int, val: ComponentValue, i: int, k: ComponentKind)
    requires
        0 <= e < v.entity_count(),
    ensures
        v.with_comp(e, val).comp(i, k) == (if i == e && k == val.kind() {
            Some(val)
        } else {
            v.comp(i, k)
        }),
{
}

/// `with_comp` never changes the entity count.
pub proof fn lemma_with_comp_count(v: WorldView, e: int, val: ComponentValue)
    requires
        0 <= e < v.entity_count(),
    ensures
        v.with_comp(e, val).entity_count() == v.entity_count(),
{
}

/// `with_writes` never changes the entity count.
pub proof fn lemma_with_writes_count(v: WorldView, e: int, ws: Seq<ComponentValue>)
    requires
        0 <= e < v.entity_count(),
    ensures
        v.with_writes(e, ws).entity_count() == v.entity_count(),
    decreases ws.len(),
{
    if ws.len() > 0 {
        lemma_with_writes_count(v, e, ws.drop_last());
        lemma_with_comp_count(v.with_writes(e, ws.drop_last()), e, ws.last());
    }
}

/// Applying a write sequence to one entity installs, for each kind, the last
/// value of that kind in the sequence, and changes nothing else.
pub proof fn lemma_with_writes_comp(
    v: WorldView,
    e: int,
    ws: Seq<ComponentValue>,
    i: int,
    k: ComponentKind,
)
    requires
        0 <= e < v.entity_count(),
    ensures
        v.with_writes(e, ws).comp(i, k) == (if i == e && last_of_kind(ws, k) is Some {
            last_of_kind(ws, k)
        } else {
            v.comp(i, k)
        }),
    decreases ws.len(),
{
    if ws.len() > 0 {
        lemma_with_writes_comp(v, e, ws.drop_last(), i, k);
        lemma_with_writes_count(v, e, ws.drop_last());
        lemma_with_comp_comp(v.with_writes(e, ws.drop_last()), e, ws.last(), i, k);
    }
}

/// Adding a fresh entity preserves kind consistency.
pub proof fn lemma_with_new_entity_wf(v: WorldView)
    requires
        v.wf(),
    ensures
        v.with_new_entity().wf(),
{
    assert forall|e: int, k: ComponentKind| (#[trigger] v.with_new_entity().comp(e, k)) is Some
        implies v.with_new_entity().comp(e, k)->Some_0.kind() == k by {
        if e < v.entities.len() {
            assert(v.with_new_entity().comp(e, k) == v.comp(e, k));
        }
    }
}

/// Writing one component preserves kind consistency.
pub proof fn lemma_with_comp_wf(v: WorldView, e: int, val: ComponentValue)
    requires
        v.wf(),
        0 <= e < v.entity_count(),
    ensures
        v.with_comp(e, val).wf(),
{
    assert forall|i: int, k: ComponentKind| (#[trigger] v.with_comp(e, val).comp(i, k)) is Some
        implies v.with_comp(e, val).comp(i, k)->Some_0.kind() == k by {
        lemma_with_comp_comp(v, e, val, i, k);
    }
}

/// Applying a write sequence preserves kind consistency.
pub proof fn lemma_with_writes_wf(v: WorldView, e: int, ws: Seq<ComponentValue>)
    requires
        v.wf(),
        0 <= e < v.entity_count(),
    ensures
        v.with_writes(e, ws).wf(),
    decreases ws.len(),
{
    if ws.len() > 0 {
        lemma_with_writes_wf(v, e, ws.drop_last());
        lemma_with_writes_count(v, e, ws.drop_last());
        lemma_with_comp_wf(v.with_writes(e, ws.drop_last()), e, ws.last());
    }
}

/// The entity registry and component store: one sparse table per component
/// type, each indexed by the entity handle, all of one length.
pub struct World {
    pub positions: Vec<Option<PositionComponent>>,
    pub velocities: Vec<Option<VelocityComponent>>,
    pub accelerations: Vec<Option<AccelerationComponent>>,
    pub renders: Vec<Option<RenderComponent>>,
    pub clips: Vec<Option<ClipComponent>>,
    pub scales: Vec<Option<ScaleComponent>>,
    pub cameras: Vec<Option<CameraComponent>>,
    pub settings: Vec<Option<SettingsComponent>>,
}

impl World {
    /// All tables cover the same entities.
    pub open spec fn wf(self) -> bool {
        &&& self.velocities.len() == self.positions.len()
        &&& self.accelerations.len() == self.positions.len()
        &&& self.renders.len() == self.positions.len()
        &&& self.clips.len() == self.positions.len()
        &&& self.scales.len() == self.positions.len()
        &&& self.cameras.len() == self.positions.len()
        &&& self.settings.len() == self.positions.len()
    }

    /// The raw slot of the table of kind `k` at entity index `e`.
    pub open spec fn table_slot(self, e: int, k: ComponentKind) -> Option<ComponentValue> {
        match k {
            ComponentKind::Position => match self.positions@[e] {
                Some(c) => Some(ComponentValue::Position(c)),
                None => None,
            },
            ComponentKind::Velocity => match self.velocities@[e] {
                Some(c) => Some(ComponentValue::Velocity(c)),
                None => None,
            },
            ComponentKind::Acceleration => match self.accelerations@[e] {
                Some(c) => Some(ComponentValue::Acceleration(c)),
                None => None,
            },
            ComponentKind::Render => match self.renders@[e] {
                Some(c) => Some(ComponentValue::Render(c)),
                None => None,
            },
            ComponentKind::Clip => match self.clips@[e] {
                Some(c) => Some(ComponentValue::Clip(c)),
                None => None,
            },
            ComponentKind::Scale => match self.scales@[e] {
                Some(c) => Some(ComponentValue::Scale(c)),
                None => None,
            },
            ComponentKind::Camera => match self.cameras@[e] {
                Some(c) => Some(ComponentValue::Camera(c)),
                None => None,
            },
            ComponentKind::Settings => match self.settings@[e] {
                Some(c) => Some(ComponentValue::Settings(c)),
                None => None,
            },
        }
    }
}

impl View for World {
    type V = WorldView;

    open spec fn view(&self) -> WorldView {
        WorldView {
            entities: Seq::new(
                self.positions.len() as nat,
                |e: int|
                    Map::new(
                        |k: ComponentKind| self.table_slot(e, k) is Some,
                        |k: ComponentKind| self.table_slot(e, k)->Some_0,
                    ),
            ),
        }
    }
}

/// Every view of a concrete store is kind-consistent: each table only ever
/// holds values of its own kind.
pub proof fn lemma_world_view_wf(w: &World)
    ensures
        w@.wf(),
{
    assert forall|e: int, k: ComponentKind| (#[trigger] w@.comp(e, k)) is Some
        implies w@.comp(e, k)->Some_0.kind() == k by {
        assert(w@.comp(e, k) == w.table_slot(e, k));
    }
}

impl World {
    /// An empty world: no entities, no components.
    pub fn new() -> (w: World)
        ensures
            w.wf(),
            w@.entity_count() == 0,
    {
        World {
            positions: Vec::new(),
            velocities: Vec::new(),
            accelerations: Vec::new(),
            renders: Vec::new(),
            clips: Vec::new(),
            scales: Vec::new(),
            cameras: Vec::new(),
            settings: Vec::new(),
        }
    }

    /// Issues a fresh, never-before-issued entity handle; the new entity
    /// holds no components.
    pub fn create_entity(&mut self) -> (e: EntityId)
        requires
            old(self).wf(),
        ensures
            final(self).wf(),
            e.idx == old(self)@.entity_count(),
            final(self)@ == old(self)@.with_new_entity(),
    {
        let e = EntityId { idx: self.positions.len() };
        self.positions.push(None);
        self.velocities.push(None);
        self.accelerations.push(None);
        self.renders.push(None);
        self.clips.push(None);
        self.scales.push(None);
        self.cameras.push(None);
        self.settings.push(None);
        proof {
            assert(self@.entities =~~= old(self)@.with_new_entity().entities);
        }
        e
    }

    /// Insert-or-overwrite of one component value in the table of its kind.
    /// This and `create_entity` are the only mutations of the store; every
    /// other path (patch commit, component-set insertion) goes through them.
    pub fn set_component(&mut self, e: EntityId, v: ComponentValue)
        requires
            old(self).wf(),
            old(self)@.valid(e),
        ensures
            final(self).wf(),
            final(self)@ == old(self)@.with_comp(e.idx as int, v),
    {
        match v {
            ComponentValue::Position(c) => {
                self.positions[e.idx] = Some(c);
            },
            ComponentValue::Velocity(c) => {
                self.velocities[e.idx] = Some(c);
            },
            ComponentValue::Acceleration(c) => {
                self.accelerations[e.idx] = Some(c);
            },
            ComponentValue::Render(c) => {
                self.renders[e.idx] = Some(c);
            },
            ComponentValue::Clip(c) => {
                self.clips[e.idx] = Some(c);
            },
            ComponentValue::Scale(c) => {
                self.scales[e.idx] = Some(c);
            },
            ComponentValue::Camera(c) => {
                self.cameras[e.idx] = Some(c);
            },
            ComponentValue::Settings(c) => {
                self.settings[e.idx] = Some(c);
            },
        }
        proof {
            assert(self@.entities =~~= old(self)@.with_comp(e.idx as int, v).entities);
        }
    }

    /// The uniform lookup capability: the committed value of kind `k` for
    /// entity `e`, if any.
    pub fn get_component(&self, e: EntityId, k: ComponentKind) -> (r: Option<ComponentValue>)
        requires
            self.wf(),
        ensures
            r == self@.comp(e.idx as int, k),
    {
        if e.idx >= self.positions.len() {
            return None;
        }
        match k {
            ComponentKind::Position => match self.positions[e.idx] {
                Some(c) => Some(ComponentValue::Position(c)),
                None => None,
            },
            ComponentKind::Velocity => match self.velocities[e.idx] {
                Some(c) => Some(ComponentValue::Velocity(c)),
                None => None,
            },
            ComponentKind::Acceleration => match self.accelerations[e.idx] {
                Some(c) => Some(ComponentValue::Acceleration(c)),
                None => None,
            },
            ComponentKind::Render => match self.renders[e.idx] {
                Some(c) => Some(ComponentValue::Render(c)),
                None => None,
            },
            ComponentKind::Clip => match self.clips[e.idx] {
                Some(c) => Some(ComponentValue::Clip(c)),
                None => None,
            },
            ComponentKind::Scale => match self.scales[e.idx] {
                Some(c) => Some(ComponentValue::Scale(c)),
                None => None,
            },
            ComponentKind::Camera => match self.cameras[e.idx] {
                Some(c) => Some(ComponentValue::Camera(c)),
                None => None,
            },
            ComponentKind::Settings => match self.settings[e.idx] {
                Some(c) => Some(ComponentValue::Settings(c)),
                None => None,
            },
        }
    }

    /// Whether entity `e` holds a component of kind `k`: the capability-set
    /// check the shape matcher resolves shapes against.
    pub fn has_component(&self, e: EntityId, k: ComponentKind) -> (r: bool)
        requires
            self.wf(),
        ensures
            r == self@.has(e.idx as int, k),
    {
        self.get_component(e, k).is_some()
    }

    /// Component-set insertion: writes each value of the tuple into the
    /// table of its kind for entity `e`, left to right. Used only by the
    /// one-time bootstrap, never by a per-tick pass.
    pub fn insert_component_set(&mut self, e: EntityId, comps: &Vec<ComponentValue>)
        requires
            old(self).wf(),
            old(self)@.valid(e),
        ensures
            final(self).wf(),
            final(self)@ == old(self)@.with_writes(e.idx as int, comps@),
    {
        let n = comps.len();
        for i in 0..n
            invariant
                n == comps.len(),
                self.wf(),
                self@.valid(e),
                self@ == old(self)@.with_writes(e.idx as int, comps@.take(i as int)),
        {
            self.set_component(e, comps[i]);
            proof {
                assert(comps@.take(i + 1).drop_last() =~= comps@.take(i as int));
                assert(comps@.take(i + 1).last() == comps@[i as int]);
                lemma_with_comp_count(
                    old(self)@.with_writes(e.idx as int, comps@.take(i as int)),
                    e.idx as int,
                    comps@[i as int],
                );
            }
        }
        proof {
            assert(comps@.take(n as int) =~= comps@);
        }
    }

    /// Typed read: the committed position of `e`, if any.
    pub fn get_position(&self, e: EntityId) -> (r: Option<PositionComponent>)
        requires
            self.wf(),
        ensures
            r == self@.position_at(e.idx as int),
    {
        match self.get_component(e, ComponentKind::Position) {
            Some(ComponentValue::Position(c)) => Some(c),
            _ => None,
        }
    }

    /// Typed read: the committed velocity of `e`, if any.
    pub fn get_velocity(&self, e: EntityId) -> (r: Option<VelocityComponent>)
        requires
            self.wf(),
        ensures
            r == self@.velocity_at(e.idx as int),
    {
        match self.get_component(e, ComponentKind::Velocity) {
            Some(ComponentValue::Velocity(c)) => Some(c),
            _ => None,
        }
    }

    /// Typed read: the committed acceleration of `e`, if any.
    pub fn get_acceleration(&self, e: EntityId) -> (r: Option<AccelerationComponent>)
        requires
            self.wf(),
        ensures
            r == self@.acceleration_at(e.idx as int),
    {
        match self.get_component(e, ComponentKind::Acceleration) {
            Some(ComponentValue::Acceleration(c)) => Some(c),
            _ => None,
        }
    }

    /// Typed read: the committed render record of `e`, if any.
    pub fn get_render(&self, e: EntityId) -> (r: Option<RenderComponent>)
        requires
            self.wf(),
        ensures
            r == self@.render_at(e.idx as int),
    {
        match self.get_component(e, ComponentKind::Render) {
            Some(ComponentValue::Render(c)) => Some(c),
            _ => None,
        }
    }

    /// Typed read: the committed clip of `e`, if any.
    pub fn get_clip(&self, e: EntityId) -> (r: Option<ClipComponent>)
        requires
            self.wf(),
        ensures
            r == self@.clip_at(e.idx as int),
    {
        match self.get_component(e, ComponentKind::Clip) {
            Some(ComponentValue::Clip(c)) => Some(c),
            _ => None,
        }
    }

    /// Typed read: the committed scale of `e`, if any.
    pub fn get_scale(&self, e: EntityId) -> (r: Option<ScaleComponent>)
        requires
            self.wf(),
        ensures
            r == self@.scale_at(e.idx as int),
    {
        match self.get_component(e, ComponentKind::Scale) {
            Some(ComponentValue::Scale(c)) => Some(c),
            _ => None,
        }
    }

    /// Typed read: the camera marker of `e`, if any.
    pub fn get_camera(&self, e: EntityId) -> (r: Option<CameraComponent>)
        requires
            self.wf(),
        ensures
            r == self@.camera_at(e.idx as int),
    {
        match self.get_component(e, ComponentKind::Camera) {
            Some(ComponentValue::Camera(c)) => Some(c),
            _ => None,
        }
    }

    /// Typed read: the committed key bindings of `e`, if any.
    pub fn get_settings(&self, e: EntityId) -> (r: Option<SettingsComponent>)
        requires
            self.wf(),
        ensures
            r == self@.settings_at(e.idx as int),
    {
        match self.get_component(e, ComponentKind::Settings) {
            Some(ComponentValue::Settings(c)) => Some(c),
            _ => None,
        }
    }

    /// The number of entities ever created: handles `0 .. entity_count()`
    /// are exactly the live ones, which bounds every matching traversal.
    pub fn entity_count(&self) -> (n: usize)
        ensures
            n == self@.entity_count(),
    {
        self.positions.len()
    }
}

} // verus!
