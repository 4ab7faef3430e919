//! The entity handle, the concrete component records, and the uniform
//! component-kind and component-value abstractions that shapes, patches and
//! the store's lookup capability work over.

use vstd::prelude::*;

verus! {

/// Opaque handle naming one entity. Fresh handles are issued by
/// `store::World::create_entity` and are never reused.
#[derive(Clone, Copy, PartialEq, Eq, Structural, Debug)]
pub struct EntityId {
    pub idx: usize,
}

/// Planar position, in world coordinate units.
#[derive(Clone, Copy, PartialEq, Eq, Structural, Debug)]
pub struct PositionComponent {
    pub x: i64,
    pub y: i64,
}

/// Planar velocity, in world coordinate units per time unit.
#[derive(Clone, Copy, PartialEq, Eq, Structural, Debug)]
pub struct VelocityComponent {
    pub x: i64,
    pub y: i64,
}

/// Planar acceleration, in world coordinate units per time unit squared.
#[derive(Clone, Copy, PartialEq, Eq, Structural, Debug)]
pub struct AccelerationComponent {
    pub x: i64,
    pub y: i64,
}

/// A drawable: a texture handle with its pixel size, and an integer draw
/// depth (lower depths are drawn first). The texture itself is owned by the
/// drawing backend; the engine only carries its handle and dimensions.
#[derive(Clone, Copy, PartialEq, Eq, Structural, Debug)]
pub struct RenderComponent {
    pub tex_id: u64,
    pub tex_w: u32,
    pub tex_h: u32,
    pub depth: i8,
}

/// A source crop within a texture: offset and size, in texture pixels.
#[derive(Clone, Copy, PartialEq, Eq, Structural, Debug)]
pub struct ClipComponent {
    pub x: u32,
    pub y: u32,
    pub w: u32,
    pub h: u32,
}

/// A draw scale factor, in percent (100 draws at natural size).
#[derive(Clone, Copy, PartialEq, Eq, Structural, Debug)]
pub struct ScaleComponent {
    pub percent: u32,
}

/// Marker: the entity holding it is the camera.
#[derive(Clone, Copy, PartialEq, Eq, Structural, Debug)]
pub struct CameraComponent;

/// Per-entity key bindings: one key code per direction.
#[derive(Clone, Copy, PartialEq, Eq, Structural, Debug)]
pub struct SettingsComponent {
    pub up: u32,
    pub down: u32,
    pub left: u32,
    pub right: u32,
}

/// Key code of the up arrow key.
pub const KEY_ARROW_UP: u32 = 273;

/// Key code of the down arrow key.
pub const KEY_ARROW_DOWN: u32 = 274;

/// Key code of the right arrow key.
pub const KEY_ARROW_RIGHT: u32 = 275;

/// Key code of the left arrow key.
pub const KEY_ARROW_LEFT: u32 = 276;

impl Default for SettingsComponent {
    /// The default bindings are the four arrow keys.
    fn default() -> (s: Self)
        ensures
            s == (SettingsComponent {
                up: KEY_ARROW_UP,
                down: KEY_ARROW_DOWN,
                left: KEY_ARROW_LEFT,
                right: KEY_ARROW_RIGHT,
            }),
    {
        SettingsComponent {
            up: KEY_ARROW_UP,
            down: KEY_ARROW_DOWN,
            left: KEY_ARROW_LEFT,
            right: KEY_ARROW_RIGHT,
        }
    }
}

/// The component types the engine knows; shapes are declared over these.
#[derive(Clone, Copy, PartialEq, Eq, Structural, Debug)]
pub enum ComponentKind {
    Position,
    Velocity,
    Acceleration,
    Render,
    Clip,
    Scale,
    Camera,
    Settings,
}

/// One component value of any kind: what update patches and the component-set
/// insertion path carry into the store.
#[derive(Clone, Copy, PartialEq, Eq, Structural, Debug)]
pub enum ComponentValue {
    Position(PositionComponent),
    Velocity(VelocityComponent),
    Acceleration(AccelerationComponent),
    Render(RenderComponent),
    Clip(ClipComponent),
    Scale(ScaleComponent),
    Camera(CameraComponent),
    Settings(SettingsComponent),
}

impl ComponentValue {
    /// The kind of table this value belongs to.
    pub open spec fn kind(self) -> ComponentKind {
        match self {
            ComponentValue::Position(_) => ComponentKind::Position,
            ComponentValue::Velocity(_) => ComponentKind::Velocity,
            ComponentValue::Acceleration(_) => ComponentKind::Acceleration,
            ComponentValue::Render(_) => ComponentKind::Render,
            ComponentValue::Clip(_) => ComponentKind::Clip,
            ComponentValue::Scale(_) => ComponentKind::Scale,
            ComponentValue::Camera(_) => ComponentKind::Camera,
            ComponentValue::Settings(_) => ComponentKind::Settings,
        }
    }
}

/// The last value of the given kind in a write sequence, if any: the value
/// that survives when the sequence is written into a store left to right.
pub open spec fn last_of_kind(s: Seq<ComponentValue>, k: ComponentKind) -> Option<ComponentValue>
    decreases s.len(),
{
    if s.len() == 0 {
        None
    } else if s.last().kind() == k {
        Some(s.last())
    } else {
        last_of_kind(s.drop_last(), k)
    }
}

/// Writing one more value on the right either installs it (when its kind is
/// the one asked about) or leaves the surviving value unchanged.
pub proof fn lemma_last_of_kind_push(s: Seq<ComponentValue>, v: ComponentValue, k: ComponentKind)
    ensures
        last_of_kind(s.push(v), k) == (if v.kind() == k {
            Some(v)
        } else {
            last_of_kind(s, k)
        }),
{
    assert(s.push(v).last() == v);
    assert(s.push(v).drop_last() =~= s);
}

} // verus!
