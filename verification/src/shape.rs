//! The shape matcher.
//!
//! A shape declares the data a system needs: a conjunction of required and
//! optional component kinds, or an alternation between two such conjunctions
//! in which the first-declared alternative wins. Matching a shape against the
//! committed store yields, in ascending entity order, one bundle per entity
//! that satisfies the shape.

use vstd::prelude::*;

use crate::components::{ComponentKind, ComponentValue, EntityId};
use crate::store::{World, WorldView};

verus! {

/// A conjunction of component kinds: every required kind must be present for
/// an entity to match; optional kinds never exclude an entity.
#[derive(Debug)]
pub struct Conjunction {
    pub required: Vec<ComponentKind>,
    pub optional: Vec<ComponentKind>,
}

/// The abstract content of a `Conjunction`.
pub struct ConjView {
    pub required: Seq<ComponentKind>,
    pub optional: Seq<ComponentKind>,
}

/// A declarative query: one conjunction, or an alternation of two (the
/// first-declared alternative has priority).
#[derive(Debug)]
pub enum Shape {
    Conj(Conjunction),
    Alt(Conjunction, Conjunction),
}

/// The abstract content of a `Shape`.
pub enum ShapeView {
    ConjV(ConjView),
    AltV(ConjView, ConjView),
}

impl View for Conjunction {
    type V = ConjView;

    open spec fn view(&self) -> ConjView {
        ConjView { required: self.required@, optional: self.optional@ }
    }
}

impl View for Shape {
    type V = ShapeView;

    open spec fn view(&self) -> ShapeView {
        match self {
            Shape::Conj(c) => ShapeView::ConjV(c@),
            Shape::Alt(l, r) => ShapeView::AltV(l@, r@),
        }
    }
}

/// The realized data of one entity matched against one conjunction: one slot
/// per component kind, filled iff the conjunction mentions the kind and the
/// entity holds the component. The values are drawn from one committed
/// snapshot of the store.
#[derive(Clone, Copy, PartialEq, Eq, Structural, Debug)]
pub struct QueryBundle {
    pub position: Option<crate::components::PositionComponent>,
    pub velocity: Option<crate::components::VelocityComponent>,
    pub acceleration: Option<crate::components::AccelerationComponent>,
    pub render: Option<crate::components::RenderComponent>,
    pub clip: Option<crate::components::ClipComponent>,
    pub scale: Option<crate::components::ScaleComponent>,
    pub camera: Option<crate::components::CameraComponent>,
    pub settings: Option<crate::components::SettingsComponent>,
}

impl QueryBundle {
    /// The slot of the given kind, as a uniform component value.
    pub open spec fn slot(self, k: ComponentKind) -> Option<ComponentValue> {
        match k {
            ComponentKind::Position => match self.position {
                Some(c) => Some(ComponentValue::Position(c)),
                None => None,
            },
            ComponentKind::Velocity => match self.velocity {
                Some(c) => Some(ComponentValue::Velocity(c)),
                None => None,
            },
            ComponentKind::Acceleration => match self.acceleration {
                Some(c) => Some(ComponentValue::Acceleration(c)),
                None => None,
            },
            ComponentKind::Render => match self.render {
                Some(c) => Some(ComponentValue::Render(c)),
                None => None,
            },
            ComponentKind::Clip => match self.clip {
                Some(c) => Some(ComponentValue::Clip(c)),
                None => None,
            },
            ComponentKind::Scale => match self.scale {
                Some(c) => Some(ComponentValue::Scale(c)),
                None => None,
            },
            ComponentKind::Camera => match self.camera {
                Some(c) => Some(ComponentValue::Camera(c)),
                None => None,
            },
            ComponentKind::Settings => match self.settings {
                Some(c) => Some(ComponentValue::Settings(c)),
                None => None,
            },
        }
    }
}

/// A matched bundle, tagged with which alternative of the shape produced it:
/// `Sole` for a plain conjunction shape, `Left` or `Right` for an alternation.
#[derive(Clone, Copy, PartialEq, Eq, Structural, Debug)]
pub enum MatchedBundle {
    Sole(QueryBundle),
    Left(QueryBundle),
    Right(QueryBundle),
}

impl MatchedBundle {
    /// The bundle under the tag.
    pub open spec fn payload(self) -> QueryBundle {
        match self {
            MatchedBundle::Sole(b) => b,
            MatchedBundle::Left(b) => b,
            MatchedBundle::Right(b) => b,
        }
    }

    /// Exec read of `payload`.
    pub fn get_payload(&self) -> (b: QueryBundle)
        ensures
            b == self.payload(),
    {
        match self {
            MatchedBundle::Sole(b) => *b,
            MatchedBundle::Left(b) => *b,
            MatchedBundle::Right(b) => *b,
        }
    }
}

/// One entry of a match set: the matched entity and its tagged bundle.
#[derive(Clone, Copy, PartialEq, Eq, Structural, Debug)]
pub struct MatchItem {
    pub entity: EntityId,
    pub bundle: MatchedBundle,
}

impl ConjView {
    /// Whether the conjunction names the kind at all, required or optional.
    pub open spec fn mentions(self, k: ComponentKind) -> bool {
        self.required.contains(k) || self.optional.contains(k)
    }

    /// Whether the entity holds a component of every required kind. Optional
    /// kinds play no part here.
    pub open spec fn satisfied_by(self, w: WorldView, e: int) -> bool {
        forall|j: int| 0 <= j < self.required.len() ==> w.has(e, #[trigger] self.required[j])
    }

    /// The bundle drawn for entity `e`: each mentioned kind's slot holds the
    /// committed component if the entity has one, and is empty otherwise.
    pub open spec fn spec_bundle(self, w: WorldView, e: int) -> QueryBundle {
        QueryBundle {
            position: if self.mentions(ComponentKind::Position) {
                w.position_at(e)
            } else {
                None
            },
            velocity: if self.mentions(ComponentKind::Velocity) {
                w.velocity_at(e)
            } else {
                None
            },
            acceleration: if self.mentions(ComponentKind::Acceleration) {
                w.acceleration_at(e)
            } else {
                None
            },
            render: if self.mentions(ComponentKind::Render) {
                w.render_at(e)
            } else {
                None
            },
            clip: if self.mentions(ComponentKind::Clip) {
                w.clip_at(e)
            } else {
                None
            },
            scale: if self.mentions(ComponentKind::Scale) {
                w.scale_at(e)
            } else {
                None
            },
            camera: if self.mentions(ComponentKind::Camera) {
                w.camera_at(e)
            } else {
                None
            },
            settings: if self.mentions(ComponentKind::Settings) {
                w.settings_at(e)
            } else {
                None
            },
        }
    }
}

impl Conjunction {
    /// Exec check of `mentions`.
    pub fn mentions_kind(&self, k: ComponentKind) -> (r: bool)
        ensures
            r == self@.mentions(k),
    {
        contains_kind(&self.required, k) || contains_kind(&self.optional, k)
    }

    /// Exec check of `satisfied_by`.
    pub fn check_satisfied(&self, w: &World, e: EntityId) -> (r: bool)
        requires
            w.wf(),
        ensures
            r == self@.satisfied_by(w@, e.idx as int),
    {
        let n = self.required.len();
        for j in 0..n
            invariant
                n == self.required.len(),
                w.wf(),
                forall|t: int| 0 <= t < j ==> w@.has(e.idx as int, #[trigger] self.required@[t]),
        {
            if !w.has_component(e, self.required[j]) {
                assert(!self@.satisfied_by(w@, e.idx as int)) by {
                    assert(0 <= j < self@.required.len());
                    assert(!w@.has(e.idx as int, self@.required[j as int]));
                }
                return false;
            }
        }
        true
    }

    /// Exec construction of `spec_bundle`.
    pub fn build_bundle(&self, w: &World, e: EntityId) -> (b: QueryBundle)
        requires
            w.wf(),
        ensures
            b == self@.spec_bundle(w@, e.idx as int),
    {
        QueryBundle {
            position: if self.mentions_kind(ComponentKind::Position) {
                w.get_position(e)
            } else {
                None
            },
            velocity: if self.mentions_kind(ComponentKind::Velocity) {
                w.get_velocity(e)
            } else {
                None
            },
            acceleration: if self.mentions_kind(ComponentKind::Acceleration) {
                w.get_acceleration(e)
            } else {
                None
            },
            render: if self.mentions_kind(ComponentKind::Render) {
                w.get_render(e)
            } else {
                None
            },
            clip: if self.mentions_kind(ComponentKind::Clip) {
                w.get_clip(e)
            } else {
                None
            },
            scale: if self.mentions_kind(ComponentKind::Scale) {
                w.get_scale(e)
            } else {
                None
            },
            camera: if self.mentions_kind(ComponentKind::Camera) {
                w.get_camera(e)
            } else {
                None
            },
            settings: if self.mentions_kind(ComponentKind::Settings) {
                w.get_settings(e)
            } else {
                None
            },
        }
    }
}

/// Whether the kind occurs in the list.
pub fn contains_kind(v: &Vec<ComponentKind>, k: ComponentKind) -> (r: bool)
    ensures
        r == v@.contains(k),
{
    let n = v.len();
    for i in 0..n
        invariant
            n == v.len(),
            forall|t: int| 0 <= t < i ==> v@[t] != k,
    {
        if v[i] == k {
            return true;
        }
    }
    assert(!v@.contains(k));
    false
}

impl ShapeView {
    /// Whether entity `e` satisfies the shape: its one conjunction, or at
    /// least one alternative of an alternation.
    pub open spec fn accepts(self, w: WorldView, e: int) -> bool {
        match self {
            ShapeView::ConjV(c) => c.satisfied_by(w, e),
            ShapeView::AltV(l, r) => l.satisfied_by(w, e) || r.satisfied_by(w, e),
        }
    }

    /// The tagged bundle drawn for a matching entity: `Sole` for a plain
    /// conjunction; for an alternation, `Left` when the left conjunction is
    /// satisfied (priority), and `Right` otherwise.
    pub open spec fn item_for(self, w: WorldView, e: int) -> MatchedBundle {
        match self {
            ShapeView::ConjV(c) => MatchedBundle::Sole(c.spec_bundle(w, e)),
            ShapeView::AltV(l, r) => if l.satisfied_by(w, e) {
                MatchedBundle::Left(l.spec_bundle(w, e))
            } else {
                MatchedBundle::Right(r.spec_bundle(w, e))
            },
        }
    }
}

impl Shape {
    /// Exec check of `ShapeView::accepts`.
    pub fn accepts_entity(&self, w: &World, e: EntityId) -> (r: bool)
        requires
            w.wf(),
        ensures
            r == self@.accepts(w@, e.idx as int),
    {
        match self {
            Shape::Conj(c) => c.check_satisfied(w, e),
            Shape::Alt(l, r) => l.check_satisfied(w, e) || r.check_satisfied(w, e),
        }
    }

    /// Exec construction of `ShapeView::item_for`.
    pub fn build_item(&self, w: &World, e: EntityId) -> (it: MatchItem)
        requires
            w.wf(),
        ensures
            it == (MatchItem { entity: e, bundle: self@.item_for(w@, e.idx as int) }),
    {
        let bundle = match self {
            Shape::Conj(c) => MatchedBundle::Sole(c.build_bundle(w, e)),
            Shape::Alt(l, r) => if l.check_satisfied(w, e) {
                MatchedBundle::Left(l.build_bundle(w, e))
            } else {
                MatchedBundle::Right(r.build_bundle(w, e))
            },
        };
        MatchItem { entity: e, bundle }
    }
}

/// The match set over entities `0 .. n`, in ascending entity order.
pub open spec fn match_upto(w: WorldView, s: ShapeView, n: int) -> Seq<MatchItem>
    decreases n,
{
    if n <= 0 {
        Seq::empty()
    } else {
        match_upto(w, s, n - 1) + (if s.accepts(w, n - 1) {
            seq![
                MatchItem {
                    entity: EntityId { idx: (n - 1) as usize },
                    bundle: s.item_for(w, n - 1),
                },
            ]
        } else {
            Seq::empty()
        })
    }
}

/// The full match set of a shape against a committed snapshot.
pub open spec fn spec_match(w: WorldView, s: ShapeView) -> Seq<MatchItem> {
    match_upto(w, s, w.entity_count() as int)
}

/// Whether entity `e` appears in the shape's match set.
pub open spec fn in_match_set(w: WorldView, s: ShapeView, e: int) -> bool {
    exists|i: int|
        0 <= i < spec_match(w, s).len() && (#[trigger] spec_match(w, s)[i]).entity.idx == e
}

/// Shape matching: the ordered sequence of (entity, tagged bundle) pairs for
/// every live entity satisfying the shape, all drawn from the one committed
/// snapshot `w`. An empty result is valid and simply yields no effects.
pub fn match_shape(w: &World, s: &Shape) -> (r: Vec<MatchItem>)
    requires
        w.wf(),
    ensures
        r@ == spec_match(w@, s@),
{
    let mut out: Vec<MatchItem> = Vec::new();
    let n = w.entity_count();
    for e in 0..n
        invariant
            w.wf(),
            n == w@.entity_count(),
            out@ == match_upto(w@, s@, e as int),
    {
        let id = EntityId { idx: e };
        if s.accepts_entity(w, id) {
            let it = s.build_item(w, id);
            out.push(it);
            proof {
                assert(out@ =~= match_upto(w@, s@, e as int) + seq![it]);
            }
        } else {
            proof {
                assert(out@ =~= match_upto(w@, s@, e as int) + Seq::<MatchItem>::empty());
            }
        }
    }
    out
}

/// The structural facts of a match set over `0 .. n`: every item names a
/// live, accepted entity and carries exactly that entity's tagged bundle;
/// every accepted entity appears; and entities appear in strictly ascending
/// order (so each at most once).
pub proof fn lemma_match_upto_props(w: WorldView, s: ShapeView, n: int)
    requires
        n <= usize::MAX,
    ensures
        forall|i: int|
            0 <= i < match_upto(w, s, n).len() ==> (#[trigger] match_upto(w, s, n)[i]).entity.idx
                < n,
        forall|i: int|
            0 <= i < match_upto(w, s, n).len() ==> s.accepts(
                w,
                (#[trigger] match_upto(w, s, n)[i]).entity.idx as int,
            ),
        forall|i: int|
            0 <= i < match_upto(w, s, n).len() ==> (#[trigger] match_upto(w, s, n)[i]).bundle
                == s.item_for(w, match_upto(w, s, n)[i].entity.idx as int),
        forall|e: int|
            0 <= e < n && s.accepts(w, e) ==> exists|i: int|
                0 <= i < match_upto(w, s, n).len() && (#[trigger] match_upto(w, s, n)[i]).entity.idx
                    == e,
        forall|i: int, j: int|
            0 <= i < j < match_upto(w, s, n).len() ==> (#[trigger] match_upto(w, s, n)[i]).entity.idx
                < (#[trigger] match_upto(w, s, n)[j]).entity.idx,
    decreases n,
{
    if n > 0 {
        lemma_match_upto_props(w, s, n - 1);
        let prev = match_upto(w, s, n - 1);
        let cur = match_upto(w, s, n);
        if s.accepts(w, n - 1) {
            assert(cur.len() == prev.len() + 1);
            assert(forall|i: int| 0 <= i < prev.len() ==> cur[i] == prev[i]);
            assert(cur[cur.len() - 1].entity.idx == n - 1);
            assert forall|e: int| 0 <= e < n && s.accepts(w, e) implies exists|i: int|
                0 <= i < cur.len() && (#[trigger] cur[i]).entity.idx == e by {
                if e < n - 1 {
                    let i = choose|i: int| 0 <= i < prev.len() && (#[trigger] prev[i]).entity.idx == e;
                    assert(0 <= i < cur.len() && cur[i].entity.idx == e);
                } else {
                    assert(cur[cur.len() - 1].entity.idx == e);
                }
            }
        } else {
            assert(cur =~= prev);
        }
    }
}

/// Membership law: an entity appears in a shape's match set iff it is live
/// and satisfies the shape, and its item carries exactly its tagged bundle.
pub proof fn lemma_match_membership(w: WorldView, s: ShapeView, e: int)
    requires
        w.entity_count() <= usize::MAX,
    ensures
        in_match_set(w, s, e) <==> (0 <= e < w.entity_count() && s.accepts(w, e)),
        forall|i: int|
            0 <= i < spec_match(w, s).len() && (#[trigger] spec_match(w, s)[i]).entity.idx == e
                ==> spec_match(w, s)[i].bundle == s.item_for(w, e),
{
    lemma_match_upto_props(w, s, w.entity_count() as int);
}

/// Presence law for purely required shapes: an entity appears in a
/// conjunction shape's match set iff it holds a component of every required
/// kind. Optional kinds play no part in membership.
pub proof fn lemma_conjunction_membership(w: WorldView, c: ConjView, e: int)
    requires
        w.entity_count() <= usize::MAX,
    ensures
        in_match_set(w, ShapeView::ConjV(c), e) <==> (0 <= e < w.entity_count() && (forall|j: int|
            0 <= j < c.required.len() ==> w.has(e, #[trigger] c.required[j]))),
{
    lemma_match_membership(w, ShapeView::ConjV(c), e);
}

/// Optional-slot law: for a kind the conjunction lists, the matched bundle's
/// slot holds the entity's committed component exactly when the entity has
/// one — presence or absence of an optional component never changes
/// membership, only the slot.
pub proof fn lemma_optional_slot(w: WorldView, c: ConjView, e: int, k: ComponentKind)
    requires
        w.wf(),
        c.optional.contains(k) || c.required.contains(k),
    ensures
        c.spec_bundle(w, e).slot(k) == w.comp(e, k),
{
}

/// Satisfaction depends on the required kinds alone: two conjunctions with
/// the same required list are satisfied by exactly the same entities,
/// whatever their optional lists.
pub proof fn lemma_optional_never_excludes(w: WorldView, c1: ConjView, c2: ConjView, e: int)
    requires
        c1.required == c2.required,
    ensures
        c1.satisfied_by(w, e) == c2.satisfied_by(w, e),
{
}

/// Left-priority law for alternation: an entity satisfying the left
/// conjunction is matched and tagged `Left` — even when it would satisfy the
/// right conjunction as well.
pub proof fn lemma_alternation_left_priority(w: WorldView, l: ConjView, r: ConjView, e: int)
    requires
        w.entity_count() <= usize::MAX,
        0 <= e < w.entity_count(),
        l.satisfied_by(w, e),
    ensures
        exists|i: int|
            0 <= i < spec_match(w, ShapeView::AltV(l, r)).len()
                && (#[trigger] spec_match(w, ShapeView::AltV(l, r))[i]).entity.idx == e
                && spec_match(w, ShapeView::AltV(l, r))[i].bundle == MatchedBundle::Left(
                l.spec_bundle(w, e),
            ),
{
    let s = ShapeView::AltV(l, r);
    lemma_match_membership(w, s, e);
    let i = choose|i: int|
        0 <= i < spec_match(w, s).len() && (#[trigger] spec_match(w, s)[i]).entity.idx == e;
    assert(spec_match(w, s)[i].bundle == s.item_for(w, e));
    assert(s.item_for(w, e) == MatchedBundle::Left(l.spec_bundle(w, e)));
}

/// Snapshot stability: the match set is a function of the committed store
/// alone, so two passes over the same snapshot with no intervening commit
/// yield identical match sets.
pub proof fn lemma_snapshot_stability(
    w: WorldView,
    s: ShapeView,
    r1: Seq<MatchItem>,
    r2: Seq<MatchItem>,
)
    requires
        r1 == spec_match(w, s),
        r2 == spec_match(w, s),
    ensures
        r1 == r2,
{
}

} // verus!
